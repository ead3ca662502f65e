//! Attaching a hosted project to the local repository: classifying the
//! `origin` remote URL, deriving the server-side search term, and finding
//! the project id among the candidates the server returns.

use vstd::prelude::*;
use vstd::multiset::Multiset;
use vstd::string::StrSliceExecFns;
use crate::strutil::dec_str_of;
use crate::strutil::dec_val;
use crate::strutil::is_u64_str;
use crate::strutil::lemma_lex_le_total;
use crate::strutil::lemma_lex_le_trans;
use crate::strutil::lex_le;
use crate::strutil::parse_u64;
use crate::strutil::str_eq;
use crate::strutil::str_lex_le;
use crate::strutil::str_starts_with;
use crate::strutil::u64_to_string;
use crate::strutil::unsigned_digits;

verus! {

/// The two transport families GitLab reports for a repository URL: `git@`
/// and `ssh://` remotes are both SSH, `http` covers HTTPS as well.
#[derive(Debug, Clone, Copy, PartialEq, Eq, Structural)]
pub enum RemoteType {
    HTTP,
    SSH,
}

/// True iff `c` is whitespace as a regular expression's `\s` class sees
/// it: the Unicode white-space code points.
pub open spec fn unicode_space(c: char) -> bool {
    let u = c as u32;
    ||| 9 <= u <= 13
    ||| u == 32
    ||| u == 0x85
    ||| u == 0xA0
    ||| u == 0x1680
    ||| 0x2000 <= u <= 0x200A
    ||| u == 0x2028
    ||| u == 0x2029
    ||| u == 0x202F
    ||| u == 0x205F
    ||| u == 0x3000
}

/// The transport family a remote URL opens with, and the length of that
/// opening: `ssh`, `git` or `http`.
pub open spec fn remote_prefix_of(s: Seq<char>) -> Option<(RemoteType, int)> {
    if "ssh"@.is_prefix_of(s) {
        Some((RemoteType::SSH, 3))
    } else if "git"@.is_prefix_of(s) {
        Some((RemoteType::SSH, 3))
    } else if "http"@.is_prefix_of(s) {
        Some((RemoteType::HTTP, 4))
    } else {
        None
    }
}

/// The greatest position `j <= k` with `s[j] == '/'`, or `-1` when there
/// is none.
pub open spec fn last_slash_upto(s: Seq<char>, k: int) -> int
    decreases (if k < 0 { 0int } else { k + 1 }),
{
    if k < 0 || k >= s.len() {
        -1
    } else if s[k] == '/' {
        k
    } else {
        last_slash_upto(s, k - 1)
    }
}

/// `last_slash_upto` stays within `-1` and its bound, and below the
/// sequence's length.
pub proof fn lemma_last_slash_bounds(s: Seq<char>, k: int)
    ensures
        -1 <= last_slash_upto(s, k),
        last_slash_upto(s, k) < s.len(),
        last_slash_upto(s, k) >= 0 ==> last_slash_upto(s, k) <= k
            && s[last_slash_upto(s, k)] == '/',
    decreases (if k < 0 { 0int } else { k + 1 }),
{
    if !(k < 0 || k >= s.len()) && s[k] != '/' {
        lemma_last_slash_bounds(s, k - 1);
    }
}

/// True iff a remote URL has the shape the attach command understands:
/// a transport opening, no whitespace, a `.git` ending, and a final path
/// segment between the last usable `/` and that ending, with at least one
/// character both before the `/` and after it.
pub open spec fn remote_url_match(s: Seq<char>) -> bool {
    &&& remote_prefix_of(s) is Some
    &&& forall|i: int| 0 <= i < s.len() ==> !unicode_space(#[trigger] s[i])
    &&& ".git"@.is_suffix_of(s)
    &&& s.len() >= 6
    &&& last_slash_upto(s, s.len() - 6) > remote_prefix_of(s).unwrap().1
}

/// The transport family of a matching remote URL.
pub open spec fn remote_type_of(s: Seq<char>) -> RemoteType
    recommends
        remote_prefix_of(s) is Some,
{
    remote_prefix_of(s).unwrap().0
}

/// The search term of a matching remote URL: everything between the last
/// usable `/` and the `.git` ending.
pub open spec fn search_param_of(s: Seq<char>) -> Seq<char> {
    s.subrange(last_slash_upto(s, s.len() - 6) + 1, s.len() - 4)
}

/// Finds the last `/` at a position of at most `k`.
fn find_last_slash(s: &str, k: usize) -> (r: Option<usize>)
    requires
        k < s@.len(),
    ensures
        r matches Some(j) ==> j <= k && last_slash_upto(s@, k as int) == j,
        r is None ==> last_slash_upto(s@, k as int) == -1,
{
    let mut j: usize = k;
    loop
        invariant_except_break
            j <= k < s@.len(),
            last_slash_upto(s@, k as int) == last_slash_upto(s@, j as int),
        ensures
            last_slash_upto(s@, k as int) == j && j <= k && s@[j as int] == '/',
        decreases j,
    {
        if s.get_char(j) == '/' {
            proof {
                assert(last_slash_upto(s@, j as int) == j);
            }
            break;
        }
        if j == 0 {
            proof {
                assert(last_slash_upto(s@, -1) == -1);
                assert(last_slash_upto(s@, 0) == -1);
            }
            return None;
        }
        j = j - 1;
    }
    Some(j)
}

/// Classifies a remote URL and derives the term the server is searched
/// with: the final path segment before the `.git` ending.  The URL must
/// have the shape [`remote_url_match`] describes.
pub fn get_search_param_and_remote_type(url: &str) -> (r: (RemoteType, String))
    requires
        remote_url_match(url@),
    ensures
        r.0 == remote_type_of(url@),
        r.1@ == search_param_of(url@),
{
    let r_type = if str_starts_with(url, "ssh") {
        RemoteType::SSH
    } else if str_starts_with(url, "git") {
        RemoteType::SSH
    } else {
        RemoteType::HTTP
    };
    let len = url.unicode_len();
    let j = match find_last_slash(url, len - 6) {
        Some(j) => j,
        None => {
            proof {
                assert(false);
            }
            0
        }
    };
    let search = url.substring_char(j + 1, len - 4);
    proof {
        assert(search@ =~= search_param_of(url@));
    }
    (r_type, search.to_owned())
}

/// The final path segment of a `gid://gitlab/Project/<id>` identifier:
/// everything after the last `/`, or the whole text when there is none.
pub open spec fn gid_tail(s: Seq<char>) -> Seq<char> {
    s.subrange(last_slash_upto(s, s.len() - 1) + 1, s.len() as int)
}

/// Reads the project id off a `gid://gitlab/Project/<id>` identifier.
/// The segment after the last `/` must be a decimal id.
pub fn parse_pid_from_gid(gid_str: &str) -> (r: u64)
    requires
        is_u64_str(gid_tail(gid_str@)),
    ensures
        r == dec_val(unsigned_digits(gid_tail(gid_str@))),
{
    let len = gid_str.unicode_len();
    proof {
        lemma_last_slash_bounds(gid_str@, gid_str@.len() - 1);
        assert(gid_tail(gid_str@).len() > 0);
        assert(gid_str@.len() > 0);
    }
    let tail = match find_last_slash(gid_str, len - 1) {
        Some(j) => gid_str.substring_char(j + 1, len),
        None => gid_str.substring_char(0, len),
    };
    proof {
        assert(tail@ =~= gid_tail(gid_str@));
    }
    match parse_u64(tail) {
        Some(v) => v,
        None => {
            proof {
                assert(false);
            }
            0
        }
    }
}

/// One candidate project as the server reports it: its global id and its
/// two repository URLs.
#[derive(Debug, Clone, PartialEq, Eq)]
pub struct RemoteProjectInfo {
    /// The `gid://gitlab/Project/<id>` identifier.
    pub id: String,
    /// The SSH repository URL, when the server reports one.
    pub ssh_url_to_repo: Option<String>,
    /// The HTTP repository URL, when the server reports one.
    pub http_url_to_repo: Option<String>,
}

/// The spec-level image of a [`RemoteProjectInfo`].
#[verifier::ext_equal]
pub struct RemoteProjectInfoView {
    pub id: Seq<char>,
    pub ssh_url_to_repo: Option<Seq<char>>,
    pub http_url_to_repo: Option<Seq<char>>,
}

impl View for RemoteProjectInfo {
    type V = RemoteProjectInfoView;

    open spec fn view(&self) -> RemoteProjectInfoView {
        RemoteProjectInfoView {
            id: self.id@,
            ssh_url_to_repo: self.ssh_url_to_repo.deep_view(),
            http_url_to_repo: self.http_url_to_repo.deep_view(),
        }
    }
}

impl DeepView for RemoteProjectInfo {
    type V = RemoteProjectInfoView;

    open spec fn deep_view(&self) -> RemoteProjectInfoView {
        self@
    }
}

/// The repository URL of a candidate that the given transport family
/// compares against.
pub open spec fn remote_of(item: RemoteProjectInfoView, t: RemoteType) -> Option<Seq<char>> {
    match t {
        RemoteType::HTTP => item.http_url_to_repo,
        RemoteType::SSH => item.ssh_url_to_repo,
    }
}

/// The first candidate whose reported URL equals the local remote URL.
pub open spec fn first_url_match(
    items: Seq<RemoteProjectInfoView>,
    t: RemoteType,
    url: Seq<char>,
) -> Option<int>
    decreases items.len(),
{
    if items.len() == 0 {
        None
    } else if remote_of(items[0], t) == Some(url) {
        Some(0)
    } else {
        match first_url_match(items.drop_first(), t, url) {
            Some(j) => Some(j + 1),
            None => None,
        }
    }
}

/// A first match lies inside the candidate list and is a match.
pub proof fn lemma_first_url_match_bounds(
    items: Seq<RemoteProjectInfoView>,
    t: RemoteType,
    url: Seq<char>,
)
    ensures
        first_url_match(items, t, url) matches Some(j)
            ==> (0 <= j < items.len() && remote_of(items[j], t) == Some(url)),
    decreases items.len(),
{
    if items.len() > 0 && remote_of(items[0], t) != Some(url) {
        lemma_first_url_match_bounds(items.drop_first(), t, url);
    }
}

/// How many candidates a scan visits: everything up to and including the
/// first match, or all of them.
pub open spec fn visited_count(
    items: Seq<RemoteProjectInfoView>,
    t: RemoteType,
    url: Seq<char>,
) -> int {
    match first_url_match(items, t, url) {
        Some(m) => m + 1,
        None => items.len() as int,
    }
}

/// Scans the server's candidates for the one whose repository URL matches
/// the local remote and returns its project id; candidates must report
/// the URL of the requested transport family and, at the match, a decimal
/// gid tail.
pub fn find_project_id(
    r_type: RemoteType,
    url: &str,
    remotes: &Vec<RemoteProjectInfo>,
) -> (r: Result<u64, String>)
    requires
        forall|i: int| 0 <= i < visited_count(remotes.deep_view(), r_type, url@)
            ==> remote_of(#[trigger] remotes.deep_view()[i], r_type) is Some,
        first_url_match(remotes.deep_view(), r_type, url@) matches Some(m)
            ==> is_u64_str(gid_tail(remotes.deep_view()[m].id)),
    ensures
        first_url_match(remotes.deep_view(), r_type, url@) matches Some(m)
            ==> (r matches Ok(pid)
                && pid == dec_val(unsigned_digits(gid_tail(remotes.deep_view()[m].id)))),
        first_url_match(remotes.deep_view(), r_type, url@) is None ==> r is Err,
{
    let ghost items = remotes.deep_view();
    let mut i: usize = 0;
    proof {
        assert(items.skip(0) =~= items);
    }
    while i < remotes.len()
        invariant
            i <= remotes@.len(),
            items == remotes.deep_view(),
            items.len() == remotes@.len(),
            forall|k: int| 0 <= k < visited_count(items, r_type, url@)
                ==> remote_of(#[trigger] items[k], r_type) is Some,
            first_url_match(items, r_type, url@) matches Some(m)
                ==> is_u64_str(gid_tail(items[m].id)),
            first_url_match(items, r_type, url@) == match first_url_match(
                items.skip(i as int), r_type, url@,
            ) {
                Some(j) => Some(i + j),
                None => None::<int>,
            },
        decreases remotes@.len() - i,
    {
        let item = &remotes[i];
        proof {
            assert(items[i as int] == item.deep_view());
            assert(items.skip(i as int)[0] == items[i as int]);
            lemma_first_url_match_bounds(items.skip(i as int), r_type, url@);
            assert(visited_count(items, r_type, url@) > i);
            assert(remote_of(items[i as int], r_type) is Some);
        }
        let gl_remote = match r_type {
            RemoteType::HTTP => match &item.http_url_to_repo {
                Some(u) => u,
                None => {
                    proof {
                        assert(false);
                    }
                    &item.id
                }
            },
            RemoteType::SSH => match &item.ssh_url_to_repo {
                Some(u) => u,
                None => {
                    proof {
                        assert(false);
                    }
                    &item.id
                }
            },
        };
        if str_eq(gl_remote.as_str(), url) {
            proof {
                assert(remote_of(items[i as int], r_type) == Some(url@));
                assert(first_url_match(items.skip(i as int), r_type, url@) == Some(0int));
                assert(first_url_match(items, r_type, url@) == Some(i as int));
            }
            return Ok(parse_pid_from_gid(item.id.as_str()));
        }
        proof {
            assert(items.skip(i as int).drop_first() =~= items.skip(i as int + 1));
        }
        i = i + 1;
    }
    proof {
        assert(items.skip(items.len() as int) =~= Seq::empty());
        assert(first_url_match(items, r_type, url@) is None);
    }
    Err("Counldn't find matching project ID".to_owned())
}

/// Looks the project id up from the local remote URL and the candidates
/// the server returned for the derived search term.
pub fn get_proj_id_by_remote(url: &str, remotes: &Vec<RemoteProjectInfo>) -> (r: Result<
    u64,
    String,
>)
    requires
        remote_url_match(url@),
        forall|i: int| 0 <= i
            < visited_count(remotes.deep_view(), remote_type_of(url@), url@)
            ==> remote_of(#[trigger] remotes.deep_view()[i], remote_type_of(url@)) is Some,
        first_url_match(remotes.deep_view(), remote_type_of(url@), url@) matches Some(m)
            ==> is_u64_str(gid_tail(remotes.deep_view()[m].id)),
    ensures
        first_url_match(remotes.deep_view(), remote_type_of(url@), url@) matches Some(m)
            ==> (r matches Ok(pid)
                && pid == dec_val(unsigned_digits(gid_tail(remotes.deep_view()[m].id)))),
        first_url_match(remotes.deep_view(), remote_type_of(url@), url@) is None ==> r is Err,
{
    let (r_type, _search) = get_search_param_and_remote_type(url);
    find_project_id(r_type, url, remotes)
}

/// One project member as the server reports it.
#[derive(Debug, Clone, PartialEq, Eq)]
pub struct Member {
    /// The member's user id.
    pub id: u64,
    /// The member's username.
    pub username: String,
}

/// The spec-level image of a [`Member`].
#[verifier::ext_equal]
pub struct MemberView {
    pub id: u64,
    pub username: Seq<char>,
}

impl View for Member {
    type V = MemberView;

    open spec fn view(&self) -> MemberView {
        MemberView { id: self.id, username: self.username@ }
    }
}

impl DeepView for Member {
    type V = MemberView;

    open spec fn deep_view(&self) -> MemberView {
        self@
    }
}

/// Members ordered by username.
pub open spec fn member_le(a: MemberView, b: MemberView) -> bool {
    lex_le(a.username, b.username)
}

/// True iff the members stand in username order.
pub open spec fn members_sorted(s: Seq<MemberView>) -> bool {
    forall|i: int, j: int| 0 <= i < j < s.len() ==> member_le(#[trigger] s[i], #[trigger] s[j])
}

/// The position of a member whose username precedes every other.
fn min_member_index(v: &Vec<Member>) -> (r: usize)
    requires
        v@.len() > 0,
    ensures
        r < v@.len(),
        forall|j: int| 0 <= j < v.deep_view().len()
            ==> member_le(v.deep_view()[r as int], #[trigger] v.deep_view()[j]),
{
    let ghost dv = v.deep_view();
    let mut m: usize = 0;
    let mut j: usize = 1;
    proof {
        lemma_lex_le_total(dv[0].username, dv[0].username);
    }
    while j < v.len()
        invariant
            m < j <= v@.len(),
            dv == v.deep_view(),
            dv.len() == v@.len(),
            forall|k: int| 0 <= k < j ==> member_le(dv[m as int], #[trigger] dv[k]),
        decreases v@.len() - j,
    {
        proof {
            assert(dv[m as int].username == v@[m as int]@.username);
            assert(dv[j as int].username == v@[j as int]@.username);
        }
        if !str_lex_le(v[m].username.as_str(), v[j].username.as_str()) {
            proof {
                lemma_lex_le_total(dv[m as int].username, dv[j as int].username);
                assert(member_le(dv[j as int], dv[m as int]));
                assert forall|k: int| 0 <= k < j + 1
                    implies member_le(dv[j as int], #[trigger] dv[k]) by {
                    if k < j {
                        lemma_lex_le_trans(
                            dv[j as int].username,
                            dv[m as int].username,
                            dv[k].username,
                        );
                    } else {
                        lemma_lex_le_total(dv[j as int].username, dv[j as int].username);
                    }
                }
            }
            m = j;
        } else {
            proof {
                assert(member_le(dv[m as int], dv[j as int]));
            }
        }
        j = j + 1;
    }
    m
}

/// Sorts members by username; which of two equally-named members comes
/// first is not specified.
pub fn sort_members(v: Vec<Member>) -> (r: Vec<Member>)
    ensures
        members_sorted(r.deep_view()),
        r.deep_view().to_multiset() == v.deep_view().to_multiset(),
{
    broadcast use vstd::seq_lib::group_to_multiset_ensures;

    let ghost whole = v.deep_view();
    let mut input = v;
    let mut out: Vec<Member> = Vec::new();
    proof {
        assert(out.deep_view().to_multiset().add(input.deep_view().to_multiset())
            =~= whole.to_multiset());
    }
    while input.len() > 0
        invariant
            out.deep_view().to_multiset().add(input.deep_view().to_multiset())
                == whole.to_multiset(),
            members_sorted(out.deep_view()),
            forall|i: int, j: int| 0 <= i < out.deep_view().len()
                && 0 <= j < input.deep_view().len()
                ==> member_le(#[trigger] out.deep_view()[i], #[trigger] input.deep_view()[j]),
        decreases input@.len(),
    {
        let ghost in_before = input.deep_view();
        let ghost out_before = out.deep_view();
        let m = min_member_index(&input);
        let x = input.remove(m);
        proof {
            in_before.to_multiset_ensures();
            out_before.to_multiset_ensures();
            assert(input.deep_view() =~= in_before.remove(m as int));
            assert(in_before.remove(m as int).to_multiset()
                =~= in_before.to_multiset().remove(in_before[m as int]));
            assert(x@ == in_before[m as int]);
        }
        out.push(x);
        proof {
            assert(out.deep_view() =~= out_before.push(in_before[m as int]));
            assert(out.deep_view().to_multiset()
                =~= out_before.to_multiset().insert(in_before[m as int]));
            assert(in_before.to_multiset().count(in_before[m as int]) > 0);
            assert(out.deep_view().to_multiset().add(input.deep_view().to_multiset())
                =~= whole.to_multiset());
            assert forall|i: int, j: int| 0 <= i < j < out.deep_view().len()
                implies member_le(
                    #[trigger] out.deep_view()[i],
                    #[trigger] out.deep_view()[j],
                ) by {
                if j == out.deep_view().len() - 1 {
                    assert(out.deep_view()[i] == out_before[i]);
                }
            }
            assert forall|i: int, j: int| 0 <= i < out.deep_view().len()
                && 0 <= j < input.deep_view().len()
                implies member_le(
                    #[trigger] out.deep_view()[i],
                    #[trigger] input.deep_view()[j],
                ) by {
                let orig = if j < m { j } else { j + 1 };
                assert(input.deep_view()[j] == in_before[orig]);
                if i < out.deep_view().len() - 1 {
                    assert(out.deep_view()[i] == out_before[i]);
                } else {
                    assert(out.deep_view()[i] == in_before[m as int]);
                }
            }
        }
    }
    proof {
        assert(input.deep_view().to_multiset() =~= Multiset::<MemberView>::empty());
        assert(out.deep_view().to_multiset() =~= whole.to_multiset());
    }
    out
}

/// Consecutive repeated members removed, keeping the first of each run —
/// what `Vec::dedup` does.
pub open spec fn dedup_members_spec(s: Seq<MemberView>) -> Seq<MemberView>
    decreases s.len(),
{
    if s.len() <= 1 {
        s
    } else {
        let d = dedup_members_spec(s.drop_last());
        if s[s.len() - 1] == s[s.len() - 2] {
            d
        } else {
            d.push(s.last())
        }
    }
}

/// Removes consecutive repeated members.
pub fn dedup_members(v: Vec<Member>) -> (r: Vec<Member>)
    ensures
        r.deep_view() == dedup_members_spec(v.deep_view()),
{
    let ghost dv = v.deep_view();
    let mut out: Vec<Member> = Vec::new();
    let mut i: usize = 0;
    proof {
        assert(dv.take(0) =~= Seq::<MemberView>::empty());
        assert(out.deep_view() =~= dedup_members_spec(dv.take(0)));
    }
    while i < v.len()
        invariant
            i <= v@.len(),
            dv == v.deep_view(),
            dv.len() == v@.len(),
            out.deep_view() == dedup_members_spec(dv.take(i as int)),
        decreases v@.len() - i,
    {
        let ghost out_before = out.deep_view();
        proof {
            assert(dv.take(i as int + 1).drop_last() =~= dv.take(i as int));
            assert(dv.take(i as int + 1).last() == dv[i as int]);
            assert(dv[i as int] == v@[i as int]@);
        }
        let same_as_previous = if i == 0 {
            false
        } else {
            proof {
                assert(dv[i as int - 1] == v@[i as int - 1]@);
            }
            let same = v[i].id == v[i - 1].id
                && str_eq(v[i].username.as_str(), v[i - 1].username.as_str());
            proof {
                if same {
                    assert(dv[i as int] =~= dv[i as int - 1]);
                } else {
                    assert(dv[i as int] != dv[i as int - 1]);
                }
                assert(dv.take(i as int + 1)[i as int] == dv[i as int]);
                assert(dv.take(i as int + 1)[i as int - 1] == dv[i as int - 1]);
            }
            same
        };
        if !same_as_previous {
            out.push(clone_member(&v[i]));
            proof {
                assert(out.deep_view() =~= out_before.push(dv[i as int]));
            }
        }
        i = i + 1;
    }
    proof {
        assert(dv.take(dv.len() as int) =~= dv);
    }
    out
}

/// An owned copy of a member.
fn clone_member(m: &Member) -> (r: Member)
    ensures
        r@ == m@,
{
    Member { id: m.id, username: m.username.clone() }
}

/// The cache line of one member: `"<id>:<username>"`.
pub open spec fn member_line(m: MemberView) -> Seq<char> {
    dec_str_of(m.id as nat) + seq![':'] + m.username
}

/// The cache lines of a member list.
pub open spec fn member_lines(s: Seq<MemberView>) -> Seq<Seq<char>> {
    s.map_values(|m: MemberView| member_line(m))
}

/// Formats members as `"<id>:<username>"` cache lines.
fn format_members(v: &Vec<Member>) -> (r: Vec<String>)
    ensures
        r.deep_view() == member_lines(v.deep_view()),
{
    let ghost dv = v.deep_view();
    let mut out: Vec<String> = Vec::new();
    let mut i: usize = 0;
    proof {
        reveal_strlit(":");
        assert(out.deep_view() =~= member_lines(dv).take(0));
    }
    while i < v.len()
        invariant
            i <= v@.len(),
            dv == v.deep_view(),
            dv.len() == v@.len(),
            out.deep_view() == member_lines(dv).take(i as int),
        decreases v@.len() - i,
    {
        let ghost out_before = out.deep_view();
        let mut line = u64_to_string(v[i].id);
        proof {
            reveal_strlit(":");
            assert(":"@ =~= seq![':']);
            assert(dv[i as int] == v@[i as int]@);
        }
        line.append(":");
        line.append(v[i].username.as_str());
        let ghost lv = line@;
        out.push(line);
        proof {
            assert(lv =~= member_line(dv[i as int]));
            assert(member_lines(dv)[i as int] == member_line(dv[i as int]));
            assert(out.deep_view() =~= out_before.push(lv));
            assert(member_lines(dv).take(i as int + 1)
                =~= member_lines(dv).take(i as int).push(member_lines(dv)[i as int]));
        }
        i = i + 1;
    }
    proof {
        assert(member_lines(dv).take(dv.len() as int) =~= member_lines(dv));
    }
    out
}

/// The member cache of a project: the ancestor and project member lists
/// put together, ordered by username, consecutive repeats removed, each
/// entry written as `"<id>:<username>"`.
pub fn get_project_members(a_members: Vec<Member>, p_members: Vec<Member>) -> (r: Vec<String>)
    ensures
        exists|s: Seq<MemberView>|
            members_sorted(s)
            && s.to_multiset() == (a_members.deep_view() + p_members.deep_view()).to_multiset()
            && r.deep_view() == member_lines(#[trigger] dedup_members_spec(s)),
{
    let ghost a_dv = a_members.deep_view();
    let ghost p_dv = p_members.deep_view();
    let mut all = a_members;
    let mut rest = p_members;
    all.append(&mut rest);
    proof {
        assert(all.deep_view() =~= a_dv + p_dv);
    }
    let sorted = sort_members(all);
    let ghost witness = sorted.deep_view();
    let deduped = dedup_members(sorted);
    let r = format_members(&deduped);
    proof {
        assert(members_sorted(witness)
            && witness.to_multiset() == (a_dv + p_dv).to_multiset()
            && r.deep_view() == member_lines(dedup_members_spec(witness)));
    }
    r
}

/// True iff the labels stand in lexicographic order.
pub open spec fn labels_sorted(s: Seq<Seq<char>>) -> bool {
    forall|i: int, j: int| 0 <= i < j < s.len() ==> lex_le(#[trigger] s[i], #[trigger] s[j])
}

/// The position of a label that precedes every other.
fn min_label_index(v: &Vec<String>) -> (r: usize)
    requires
        v@.len() > 0,
    ensures
        r < v@.len(),
        forall|j: int| 0 <= j < v.deep_view().len()
            ==> lex_le(v.deep_view()[r as int], #[trigger] v.deep_view()[j]),
{
    let ghost dv = v.deep_view();
    let mut m: usize = 0;
    let mut j: usize = 1;
    proof {
        lemma_lex_le_total(dv[0], dv[0]);
    }
    while j < v.len()
        invariant
            m < j <= v@.len(),
            dv == v.deep_view(),
            dv.len() == v@.len(),
            forall|k: int| 0 <= k < j ==> lex_le(dv[m as int], #[trigger] dv[k]),
        decreases v@.len() - j,
    {
        proof {
            assert(dv[m as int] == v@[m as int]@);
            assert(dv[j as int] == v@[j as int]@);
        }
        if !str_lex_le(v[m].as_str(), v[j].as_str()) {
            proof {
                lemma_lex_le_total(dv[m as int], dv[j as int]);
                assert forall|k: int| 0 <= k < j + 1
                    implies lex_le(dv[j as int], #[trigger] dv[k]) by {
                    if k < j {
                        lemma_lex_le_trans(dv[j as int], dv[m as int], dv[k]);
                    } else {
                        lemma_lex_le_total(dv[j as int], dv[j as int]);
                    }
                }
            }
            m = j;
        }
        j = j + 1;
    }
    m
}

/// The label cache of a project: the reported label names in
/// lexicographic order.
pub fn get_project_labels(labels: Vec<String>) -> (r: Vec<String>)
    ensures
        labels_sorted(r.deep_view()),
        r.deep_view().to_multiset() == labels.deep_view().to_multiset(),
{
    broadcast use vstd::seq_lib::group_to_multiset_ensures;

    let ghost whole = labels.deep_view();
    let mut input = labels;
    let mut out: Vec<String> = Vec::new();
    proof {
        assert(out.deep_view().to_multiset().add(input.deep_view().to_multiset())
            =~= whole.to_multiset());
    }
    while input.len() > 0
        invariant
            out.deep_view().to_multiset().add(input.deep_view().to_multiset())
                == whole.to_multiset(),
            labels_sorted(out.deep_view()),
            forall|i: int, j: int| 0 <= i < out.deep_view().len()
                && 0 <= j < input.deep_view().len()
                ==> lex_le(#[trigger] out.deep_view()[i], #[trigger] input.deep_view()[j]),
        decreases input@.len(),
    {
        let ghost in_before = input.deep_view();
        let ghost out_before = out.deep_view();
        let m = min_label_index(&input);
        let x = input.remove(m);
        proof {
            in_before.to_multiset_ensures();
            out_before.to_multiset_ensures();
            assert(input.deep_view() =~= in_before.remove(m as int));
            assert(in_before.remove(m as int).to_multiset()
                =~= in_before.to_multiset().remove(in_before[m as int]));
            assert(x@ == in_before[m as int]);
        }
        out.push(x);
        proof {
            assert(out.deep_view() =~= out_before.push(in_before[m as int]));
            assert(out.deep_view().to_multiset()
                =~= out_before.to_multiset().insert(in_before[m as int]));
            assert(in_before.to_multiset().count(in_before[m as int]) > 0);
            assert(out.deep_view().to_multiset().add(input.deep_view().to_multiset())
                =~= whole.to_multiset());
            assert forall|i: int, j: int| 0 <= i < j < out.deep_view().len()
                implies lex_le(
                    #[trigger] out.deep_view()[i],
                    #[trigger] out.deep_view()[j],
                ) by {
                if j == out.deep_view().len() - 1 {
                    assert(out.deep_view()[i] == out_before[i]);
                }
            }
            assert forall|i: int, j: int| 0 <= i < out.deep_view().len()
                && 0 <= j < input.deep_view().len()
                implies lex_le(
                    #[trigger] out.deep_view()[i],
                    #[trigger] input.deep_view()[j],
                ) by {
                let orig = if j < m { j } else { j + 1 };
                assert(input.deep_view()[j] == in_before[orig]);
                if i < out.deep_view().len() - 1 {
                    assert(out.deep_view()[i] == out_before[i]);
                } else {
                    assert(out.deep_view()[i] == in_before[m as int]);
                }
            }
        }
    }
    proof {
        assert(input.deep_view().to_multiset() =~= Multiset::<Seq<char>>::empty());
        assert(out.deep_view().to_multiset() =~= whole.to_multiset());
    }
    out
}

} // verus!
