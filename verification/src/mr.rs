//! Pure helpers of the merge-request commands: titles derived from issues,
//! the work-in-progress marker, and the non-interactive description text.

use vstd::prelude::*;
use crate::strutil::dec_str_of;
use crate::strutil::str_starts_with;
use crate::strutil::u64_to_string;
use vstd::string::StrSliceExecFns;

verus! {

/// The quick-edit commands: small state changes applied to an issue or a
/// merge request by id.
#[derive(Debug, Clone, Copy, PartialEq, Eq, Structural)]
pub enum ShortCmd {
    Close,
    Reopen,
    Lock,
    Unlock,
    Assign,
    Wip,
}

/// The lifecycle transition a quick-edit command requests, if any.
#[derive(Debug, Clone, Copy, PartialEq, Eq, Structural)]
pub enum StateEvent {
    Close,
    Reopen,
}

/// The state transition a quick-edit command asks the server for:
/// closing and reopening are transitions, the rest are not.
pub fn quick_edit_state_event(cmd: ShortCmd) -> (r: Option<StateEvent>)
    ensures
        cmd == ShortCmd::Close ==> r == Some(StateEvent::Close),
        cmd == ShortCmd::Reopen ==> r == Some(StateEvent::Reopen),
        cmd != ShortCmd::Close && cmd != ShortCmd::Reopen ==> r is None,
{
    match cmd {
        ShortCmd::Close => Some(StateEvent::Close),
        ShortCmd::Reopen => Some(StateEvent::Reopen),
        _ => None,
    }
}

/// The discussion-lock change a quick-edit command requests, if any.
pub fn quick_edit_lock(cmd: ShortCmd) -> (r: Option<bool>)
    ensures
        cmd == ShortCmd::Lock ==> r == Some(true),
        cmd == ShortCmd::Unlock ==> r == Some(false),
        cmd != ShortCmd::Lock && cmd != ShortCmd::Unlock ==> r is None,
{
    match cmd {
        ShortCmd::Lock => Some(true),
        ShortCmd::Unlock => Some(false),
        _ => None,
    }
}

/// The title used when a request resolves an issue:
/// `Resolve "<issue title>"`.
pub fn resolves_issue_mr_title(issue_title: &str) -> (r: String)
    ensures
        r@ == "Resolve \""@ + issue_title@ + "\""@,
{
    let mut s = String::new();
    s.append("Resolve \"");
    s.append(issue_title);
    s.append("\"");
    s
}

/// `s` with the first matching draft marker removed from its front, or
/// unchanged when none matches.
pub open spec fn strip_wip_spec(s: Seq<char>) -> Seq<char> {
    if "[WIP]"@.is_prefix_of(s) {
        s.skip("[WIP]"@.len() as int)
    } else if "WIP:"@.is_prefix_of(s) {
        s.skip("WIP:"@.len() as int)
    } else if "Draft:"@.is_prefix_of(s) {
        s.skip("Draft:"@.len() as int)
    } else if "[Draft]"@.is_prefix_of(s) {
        s.skip("[Draft]"@.len() as int)
    } else if "(Draft)"@.is_prefix_of(s) {
        s.skip("(Draft)"@.len() as int)
    } else {
        s
    }
}

/// Removes the leading draft marker, if any, from a title.
pub fn strip_wip(s: String) -> (r: String)
    ensures
        r@ == strip_wip_spec(s@),
{
    if str_starts_with(s.as_str(), "[WIP]") {
        strip_prefix_len(&s, "[WIP]".unicode_len())
    } else if str_starts_with(s.as_str(), "WIP:") {
        strip_prefix_len(&s, "WIP:".unicode_len())
    } else if str_starts_with(s.as_str(), "Draft:") {
        strip_prefix_len(&s, "Draft:".unicode_len())
    } else if str_starts_with(s.as_str(), "[Draft]") {
        strip_prefix_len(&s, "[Draft]".unicode_len())
    } else if str_starts_with(s.as_str(), "(Draft)") {
        strip_prefix_len(&s, "(Draft)".unicode_len())
    } else {
        s
    }
}

/// The characters of `s` from position `n` on.
fn strip_prefix_len(s: &String, n: usize) -> (r: String)
    requires
        n <= s@.len(),
    ensures
        r@ == s@.skip(n as int),
{
    let len = s.as_str().unicode_len();
    let rest = s.as_str().substring_char(n, len);
    proof {
        assert(rest@ =~= s@.skip(n as int));
    }
    rest.to_owned()
}

/// Marks a title as work in progress: `WIP: <title>`.
pub fn add_wip(title: &str) -> (r: String)
    ensures
        r@ == "WIP: "@ + title@,
{
    let mut s = String::new();
    s.append("WIP: ");
    s.append(title);
    s
}

/// The title update of the draft toggle: with the toggle turned off on a
/// draft request the marker is stripped; turning it on marks a non-draft
/// title; anything else leaves the title alone.
pub fn toggle_wip_title(title: String, work_in_progress: bool, on: bool, off: bool) -> (r: String)
    ensures
        work_in_progress && off ==> r@ == strip_wip_spec(title@),
        !work_in_progress && on ==> r@ == "WIP: "@ + title@,
        !(work_in_progress && off) && !(!work_in_progress && on) ==> r@ == title@,
{
    if work_in_progress && off {
        strip_wip(title)
    } else if !work_in_progress && on {
        add_wip(title.as_str())
    } else {
        title
    }
}

/// The trailer that ties a request to the issue it closes:
/// `Closes #<id>`.
pub open spec fn closes_trailer(issue_id: u64) -> Seq<char> {
    "Closes #"@ + dec_str_of(issue_id as nat)
}

/// The non-interactive description of a new merge request.
///
/// An explicit description wins; a linked issue appends (or forms) the
/// `Closes #<id>` trailer; otherwise the commit body, if any, stands
/// alone.
pub open spec fn build_description_spec(
    desc: Option<Seq<char>>,
    commit_body: Option<Seq<char>>,
    issue_id: Option<u64>,
) -> Option<Seq<char>> {
    match (desc, issue_id) {
        (Some(d), Some(i)) => Some(d + "\n\n"@ + closes_trailer(i)),
        (None, Some(i)) => match commit_body {
            Some(b) => Some(b + "\n\n"@ + closes_trailer(i)),
            None => Some(closes_trailer(i)),
        },
        (Some(d), None) => Some(d),
        (None, None) => commit_body,
    }
}

/// Builds the non-interactive description text.
pub fn build_description(
    desc: Option<&str>,
    commit_body: Option<&str>,
    issue_id: Option<u64>,
) -> (r: Option<String>)
    ensures
        r.deep_view() == build_description_spec(
            desc.deep_view(),
            commit_body.deep_view(),
            issue_id,
        ),
{
    match (desc, issue_id) {
        (Some(d), Some(i)) => {
            let mut s = String::new();
            s.append(d);
            s.append("\n\n");
            s.append("Closes #");
            let id = u64_to_string(i);
            s.append(id.as_str());
            proof {
                assert(s@ =~= d@ + "\n\n"@ + closes_trailer(i));
            }
            Some(s)
        }
        (None, Some(i)) => {
            let mut s = String::new();
            match commit_body {
                Some(b) => {
                    s.append(b);
                    s.append("\n\n");
                }
                None => {}
            }
            s.append("Closes #");
            let id = u64_to_string(i);
            s.append(id.as_str());
            proof {
                if commit_body is Some {
                    assert(s@ =~= commit_body.deep_view().unwrap() + "\n\n"@ + closes_trailer(i));
                } else {
                    assert(s@ =~= closes_trailer(i));
                }
            }
            Some(s)
        }
        (Some(d), None) => Some(d.to_owned()),
        (None, None) => match commit_body {
            Some(b) => Some(b.to_owned()),
            None => None,
        },
    }
}

/// A line terminator's carriage return removed from the end of a
/// newline-terminated segment.
pub open spec fn drop_cr(seg: Seq<char>) -> Seq<char> {
    if seg.len() > 0 && seg.last() == '\r' {
        seg.drop_last()
    } else {
        seg
    }
}

/// The position of the first `'\n'` in `s`, or `s.len()` when there is
/// none.
pub open spec fn first_nl(s: Seq<char>) -> nat
    decreases s.len(),
{
    if s.len() == 0 {
        0
    } else if s[0] == '\n' {
        0
    } else {
        1 + first_nl(s.drop_first())
    }
}

proof fn lemma_first_nl(s: Seq<char>)
    ensures
        first_nl(s) <= s.len(),
        first_nl(s) < s.len() ==> s[first_nl(s) as int] == '\n',
        forall|i: int| 0 <= i < first_nl(s) ==> s[i] != '\n',
    decreases s.len(),
{
    if s.len() > 0 && s[0] != '\n' {
        lemma_first_nl(s.drop_first());
        assert forall|i: int| 0 <= i < first_nl(s) implies s[i] != '\n' by {
            if i > 0 {
                assert(s.drop_first()[i - 1] == s[i]);
            }
        }
    }
}

/// The lines of a text, as `str::lines` sees them: split at `'\n'`, each
/// newline-terminated segment losing one trailing `'\r'`, a final
/// unterminated segment kept verbatim, and a final line ending optional.
pub open spec fn split_lines(s: Seq<char>) -> Seq<Seq<char>>
    decreases s.len(),
{
    if s.len() == 0 {
        Seq::empty()
    } else {
        let k = first_nl(s);
        if k >= s.len() {
            seq![s]
        } else {
            seq![drop_cr(s.take(k as int))] + split_lines(s.skip(k as int + 1))
        }
    }
}

/// The text the lines make when put back together with `'\n'`.
pub open spec fn join_nl(ls: Seq<Seq<char>>) -> Seq<char>
    decreases ls.len(),
{
    if ls.len() == 0 {
        Seq::empty()
    } else if ls.len() == 1 {
        ls[0]
    } else {
        join_nl(ls.drop_last()) + seq!['\n'] + ls.last()
    }
}

/// The position of the first `'\n'` at or after `from`, or the length
/// when there is none.
fn find_nl_from(s: &str, from: usize) -> (r: usize)
    requires
        from <= s@.len(),
    ensures
        r == from + first_nl(s@.skip(from as int)),
        r <= s@.len(),
{
    let len = s.unicode_len();
    let mut i: usize = from;
    while i < len
        invariant
            from <= i <= len,
            len == s@.len(),
            first_nl(s@.skip(from as int)) == (i - from) + first_nl(s@.skip(i as int)),
        decreases len - i,
    {
        if s.get_char(i) == '\n' {
            proof {
                assert(s@.skip(i as int)[0] == s@[i as int]);
                assert(first_nl(s@.skip(i as int)) == 0);
            }
            return i;
        }
        proof {
            assert(s@.skip(i as int)[0] == s@[i as int]);
            assert(s@.skip(i as int).drop_first() =~= s@.skip(i as int + 1));
            assert(first_nl(s@.skip(i as int)) == 1 + first_nl(s@.skip(i as int + 1)));
        }
        i = i + 1;
    }
    proof {
        assert(s@.skip(len as int) =~= Seq::<char>::empty());
        assert(first_nl(s@.skip(len as int)) == 0);
    }
    len
}

/// The lines of a text, each an owned string, per [`split_lines`].
pub fn text_lines(s: &str) -> (r: Vec<String>)
    ensures
        r.deep_view() == split_lines(s@),
{
    let len = s.unicode_len();
    let mut out: Vec<String> = Vec::new();
    let mut pos: usize = 0;
    proof {
        assert(s@.skip(0) =~= s@);
        assert(out.deep_view() + split_lines(s@.skip(0)) =~= split_lines(s@));
    }
    while pos < len
        invariant
            pos <= len,
            len == s@.len(),
            out.deep_view() + split_lines(s@.skip(pos as int)) =~= split_lines(s@),
        decreases len - pos,
    {
        let ghost rest = s@.skip(pos as int);
        let ghost out_before = out.deep_view();
        let k = find_nl_from(s, pos);
        proof {
            lemma_first_nl(rest);
            assert(rest.len() > 0);
        }
        if k >= len {
            proof {
                assert(first_nl(rest) >= rest.len());
                assert(split_lines(rest) =~= seq![rest]);
            }
            let seg = s.substring_char(pos, len);
            out.push(seg.to_owned());
            proof {
                assert(seg@ =~= rest);
                assert(out.deep_view() =~= out_before.push(rest));
                assert(out.deep_view() + split_lines(s@.skip(len as int)) =~= split_lines(s@));
            }
            pos = len;
        } else {
            let ghost kk = (k - pos) as int;
            proof {
                assert(first_nl(rest) == kk);
                assert(first_nl(rest) < rest.len());
                assert(split_lines(rest) =~= seq![drop_cr(rest.take(kk))]
                    + split_lines(rest.skip(kk + 1)));
            }
            let seg = if k > pos && s.get_char(k - 1) == '\r' {
                s.substring_char(pos, k - 1)
            } else {
                s.substring_char(pos, k)
            };
            proof {
                assert(rest.take(kk) =~= s@.subrange(pos as int, k as int));
                assert(seg@ =~= drop_cr(rest.take(kk)));
                assert(rest.skip(kk + 1) =~= s@.skip(k as int + 1));
            }
            out.push(seg.to_owned());
            proof {
                assert(out.deep_view() =~= out_before.push(drop_cr(rest.take(kk))));
                assert(out.deep_view() + split_lines(s@.skip(k as int + 1))
                    =~= split_lines(s@));
            }
            pos = k + 1;
        }
    }
    proof {
        assert(s@.skip(len as int) =~= Seq::<char>::empty());
        assert(out.deep_view() =~= split_lines(s@));
    }
    out
}

/// Joins the lines from position `from` on with `'\n'`.
fn join_lines_from(lines: &Vec<String>, from: usize) -> (r: String)
    requires
        from < lines.deep_view().len(),
    ensures
        r@ == join_nl(lines.deep_view().skip(from as int)),
{
    let ghost dv = lines.deep_view();
    proof {
        assert(dv.len() == lines@.len());
    }
    let n = lines.len();
    let mut s = clone_string(&lines[from]);
    let mut i: usize = from + 1;
    proof {
        reveal_strlit("\n");
        assert(dv.subrange(from as int, from as int + 1) =~= seq![dv[from as int]]);
        assert(join_nl(dv.subrange(from as int, from as int + 1)) == dv[from as int]);
    }
    while i < lines.len()
        invariant
            from < i <= lines@.len(),
            dv == lines.deep_view(),
            dv.len() == lines@.len(),
            s@ == join_nl(dv.subrange(from as int, i as int)),
        decreases lines@.len() - i,
    {
        proof {
            reveal_strlit("\n");
            assert("\n"@ =~= seq!['\n']);
        }
        s.append("\n");
        s.append(lines[i].as_str());
        proof {
            let upto = dv.subrange(from as int, i as int + 1);
            assert(upto.drop_last() =~= dv.subrange(from as int, i as int));
            assert(upto.last() == dv[i as int]);
            assert(upto.len() >= 2);
            assert(s@ == join_nl(upto.drop_last()) + seq!['\n'] + upto.last());
        }
        i = i + 1;
    }
    proof {
        assert(dv.subrange(from as int, dv.len() as int) =~= dv.skip(from as int));
    }
    s
}

/// An owned copy of a string.
fn clone_string(s: &String) -> (r: String)
    ensures
        r@ == s@,
{
    s.clone()
}

/// Splits a commit message into its first line and — when the message has
/// more than two lines — the body from the third line on, joined back
/// with `'\n'`.  The message must not be empty.
pub fn split_commit_message(msg: &str) -> (r: (String, Option<String>))
    requires
        msg@.len() > 0,
    ensures
        r.0@ == split_lines(msg@)[0],
        split_lines(msg@).len() > 2 ==> (r.1 matches Some(b)
            && b@ == join_nl(split_lines(msg@).skip(2))),
        split_lines(msg@).len() <= 2 ==> r.1 is None,
{
    let lines = text_lines(msg);
    proof {
        assert(split_lines(msg@).len() > 0);
        assert(lines.deep_view()[0] == split_lines(msg@)[0]);
    }
    let head = clone_string(&lines[0]);
    if lines.len() > 2 {
        let body = join_lines_from(&lines, 2);
        (head, Some(body))
    } else {
        (head, None)
    }
}

/// Strips the `origin/` remote prefix from a tracking-branch name, as the
/// resolver expects it.
pub fn strip_remote_prefix(name: &str) -> (r: String)
    ensures
        "origin/"@.is_prefix_of(name@) ==> r@ == name@.skip("origin/"@.len() as int),
        !"origin/"@.is_prefix_of(name@) ==> r@ == name@,
{
    if str_starts_with(name, "origin/") {
        let len = name.unicode_len();
        let rest = name.substring_char("origin/".unicode_len(), len);
        proof {
            assert(rest@ =~= name@.skip("origin/"@.len() as int));
        }
        rest.to_owned()
    } else {
        name.to_owned()
    }
}

} // verus!
