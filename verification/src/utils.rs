//! Small shared helpers of the commands.

use vstd::prelude::*;
use vstd::string::StrSliceExecFns;
use crate::config::Config;
use crate::strutil::dec_val;
use crate::strutil::is_u64_str;
use crate::strutil::parse_u64;
use crate::strutil::str_eq;
use crate::strutil::unsigned_digits;

verus! {

/// The project to work on: an explicit `--project_id` argument wins over
/// the id attached to the repository; with neither, the command fails.
/// An explicit argument must be a decimal id (the argument validator has
/// already checked it).
pub fn get_proj_from_arg_or_conf(arg_project_id: Option<&str>, config: &Config) -> (r: Result<
    u64,
    String,
>)
    requires
        arg_project_id matches Some(a) ==> is_u64_str(a@),
    ensures
        arg_project_id matches Some(a)
            ==> r == Ok::<u64, String>(dec_val(unsigned_digits(a@)) as u64),
        arg_project_id is None ==> (config.projectid matches Some(c)
            ==> r == Ok::<u64, String>(c)),
        arg_project_id is None && config.projectid is None ==> r is Err,
{
    match (config.projectid, arg_project_id) {
        (None, Some(a_id)) => match parse_u64(a_id) {
            Some(v) => Ok(v),
            None => {
                proof {
                    assert(false);
                }
                Err(String::new())
            }
        },
        (Some(c_id), None) => Ok(c_id),
        (Some(_), Some(a_id)) => match parse_u64(a_id) {
            Some(v) => Ok(v),
            None => {
                proof {
                    assert(false);
                }
                Err(String::new())
            }
        },
        (None, None) => Err(
            "No project ID passed and project not attached to the current repo. Run `git lab project attach`".to_owned(),
        ),
    }
}

/// The position of the first `':'` in `s`, or `s.len()` when there is
/// none.
pub open spec fn first_colon(s: Seq<char>) -> nat
    decreases s.len(),
{
    if s.len() == 0 {
        0
    } else if s[0] == ':' {
        0
    } else {
        1 + first_colon(s.drop_first())
    }
}

/// The id part of a `"<id>:<username>"` member entry: everything before
/// the first `':'`.
pub open spec fn member_id_text(m: Seq<char>) -> Seq<char> {
    m.take(first_colon(m) as int)
}

/// The username part of a `"<id>:<username>"` member entry: the second
/// `':'`-separated field.
pub open spec fn member_name(m: Seq<char>) -> Seq<char> {
    let rest = m.skip(first_colon(m) as int + 1);
    rest.take(first_colon(rest) as int)
}

/// The numeric id of a member entry.
pub open spec fn member_id_val(m: Seq<char>) -> u64 {
    dec_val(unsigned_digits(member_id_text(m))) as u64
}

/// True iff a member entry is shaped as the project-member cache writes
/// it: a decimal id, a `':'`, then the username.
pub open spec fn member_entry_ok(m: Seq<char>) -> bool {
    first_colon(m) < m.len() && is_u64_str(member_id_text(m))
}

/// The name-to-id pairs a member list carries, in order.
pub open spec fn member_pairs(ms: Seq<Seq<char>>) -> Seq<(Seq<char>, u64)> {
    Seq::new(ms.len(), |j: int| (member_name(ms[j]), member_id_val(ms[j])))
}

/// Name-to-id pairs read into a map, later pairs overriding earlier ones
/// — exactly what collecting them into a hash map does.
pub open spec fn pairs_map(ps: Seq<(Seq<char>, u64)>) -> Map<Seq<char>, u64>
    decreases ps.len(),
{
    if ps.len() == 0 {
        Map::empty()
    } else {
        pairs_map(ps.drop_last()).insert(ps.last().0, ps.last().1)
    }
}

/// The member map of a member list.
pub open spec fn member_map(ms: Seq<Seq<char>>) -> Map<Seq<char>, u64> {
    pairs_map(member_pairs(ms))
}

/// A pair map contains exactly the names its pairs carry.
proof fn lemma_pairs_map_contains(ps: Seq<(Seq<char>, u64)>, n: Seq<char>)
    ensures
        pairs_map(ps).contains_key(n) <==> exists|k: int|
            0 <= k < ps.len() && (#[trigger] ps[k]).0 == n,
    decreases ps.len(),
{
    if ps.len() > 0 {
        lemma_pairs_map_contains(ps.drop_last(), n);
        let last = ps.len() - 1;
        if ps[last].0 != n {
            if exists|k: int| 0 <= k < ps.len() && (#[trigger] ps[k]).0 == n {
                let k = choose|k: int| 0 <= k < ps.len() && (#[trigger] ps[k]).0 == n;
                assert(ps.drop_last()[k] == ps[k]);
            }
            if exists|k: int| 0 <= k < ps.drop_last().len()
                && (#[trigger] ps.drop_last()[k]).0 == n {
                let k = choose|k: int|
                    0 <= k < ps.drop_last().len() && (#[trigger] ps.drop_last()[k]).0 == n;
                assert(ps[k] == ps.drop_last()[k]);
            }
        }
    }
}

/// A name maps to the id of its last pair.
proof fn lemma_pairs_map_value(ps: Seq<(Seq<char>, u64)>, n: Seq<char>, k: int)
    requires
        0 <= k < ps.len(),
        ps[k].0 == n,
        forall|j: int| k < j < ps.len() ==> (#[trigger] ps[j]).0 != n,
    ensures
        pairs_map(ps).contains_key(n),
        pairs_map(ps)[n] == ps[k].1,
    decreases ps.len(),
{
    let last = ps.len() - 1;
    if k < last {
        assert(ps[last].0 != n);
        assert(ps.drop_last()[k] == ps[k]);
        assert forall|j: int| k < j < ps.drop_last().len()
            implies (#[trigger] ps.drop_last()[j]).0 != n by {
            assert(ps.drop_last()[j] == ps[j]);
        }
        lemma_pairs_map_value(ps.drop_last(), n, k);
    }
}

/// A map with a list of keys taken out, one after the other.
pub open spec fn remove_keys(m: Map<Seq<char>, u64>, ks: Seq<Seq<char>>) -> Map<Seq<char>, u64>
    decreases ks.len(),
{
    if ks.len() == 0 {
        m
    } else {
        remove_keys(m, ks.drop_last()).remove(ks.last())
    }
}

/// Removing keys removes exactly those keys and no values.
proof fn lemma_remove_keys(m: Map<Seq<char>, u64>, ks: Seq<Seq<char>>, n: Seq<char>)
    ensures
        remove_keys(m, ks).contains_key(n) <==> (m.contains_key(n) && !ks.contains(n)),
        remove_keys(m, ks).contains_key(n) ==> remove_keys(m, ks)[n] == m[n],
    decreases ks.len(),
{
    if ks.len() > 0 {
        lemma_remove_keys(m, ks.drop_last(), n);
        if ks.contains(n) && !ks.drop_last().contains(n) {
            assert(ks.last() == n) by {
                let w = choose|w: int| 0 <= w < ks.len() && ks[w] == n;
                if w < ks.len() - 1 {
                    assert(ks.drop_last()[w] == n);
                }
            }
        }
        if ks.drop_last().contains(n) {
            let w = choose|w: int| 0 <= w < ks.drop_last().len() && ks.drop_last()[w] == n;
            assert(ks[w] == n);
        }
    }
}

/// One username resolved after the other against the member map, each
/// found name being spent: asking for the same user twice fails the
/// second time, exactly as removing found keys from a hash map does.
pub open spec fn resolve_user_ids(
    m: Map<Seq<char>, u64>,
    names: Seq<Seq<char>>,
) -> Option<Seq<u64>>
    decreases names.len(),
{
    if names.len() == 0 {
        Some(Seq::empty())
    } else if m.contains_key(names[0]) {
        match resolve_user_ids(m.remove(names[0]), names.drop_first()) {
            Some(rest) => Some(seq![m[names[0]]] + rest),
            None => None,
        }
    } else {
        None
    }
}

/// The position of the first `':'` at or after `from`, or the length
/// when there is none.
fn find_colon_from(s: &str, from: usize) -> (r: usize)
    requires
        from <= s@.len(),
    ensures
        r == from + first_colon(s@.skip(from as int)),
        r <= s@.len(),
{
    let len = s.unicode_len();
    let mut i: usize = from;
    while i < len
        invariant
            from <= i <= len,
            len == s@.len(),
            first_colon(s@.skip(from as int)) == (i - from) + first_colon(s@.skip(i as int)),
        decreases len - i,
    {
        if s.get_char(i) == ':' {
            proof {
                assert(s@.skip(i as int)[0] == s@[i as int]);
                assert(first_colon(s@.skip(i as int)) == 0);
            }
            return i;
        }
        proof {
            assert(s@.skip(i as int)[0] == s@[i as int]);
            assert(s@.skip(i as int).drop_first() =~= s@.skip(i as int + 1));
            assert(first_colon(s@.skip(i as int)) == 1 + first_colon(s@.skip(i as int + 1)));
        }
        i = i + 1;
    }
    proof {
        assert(s@.skip(len as int) =~= Seq::<char>::empty());
        assert(first_colon(s@.skip(len as int)) == 0);
    }
    len
}

/// The name and id of one member entry.
fn parse_member(m: &str) -> (r: (String, u64))
    requires
        member_entry_ok(m@),
    ensures
        r.0@ == member_name(m@),
        r.1 == member_id_val(m@),
{
    let len = m.unicode_len();
    let c1 = find_colon_from(m, 0);
    proof {
        assert(m@.skip(0) =~= m@);
        assert(c1 < len);
    }
    let c2 = find_colon_from(m, c1 + 1);
    let name = m.substring_char(c1 + 1, c2);
    proof {
        let rest = m@.skip(c1 as int + 1);
        assert(name@ =~= rest.take(first_colon(rest) as int));
    }
    let id_text = m.substring_char(0, c1);
    proof {
        assert(id_text@ =~= member_id_text(m@));
    }
    let id = match parse_u64(id_text) {
        Some(v) => v,
        None => {
            proof {
                assert(false);
            }
            0
        }
    };
    (name.to_owned(), id)
}

/// Maps requested usernames to member ids, using the cached member list
/// (entries of the form `"<id>:<username>"`).  A name maps to the id of
/// its last cache entry; each found name is spent, and an unknown — or
/// repeated — name fails the whole call.
pub fn map_user_ids_from_names(members: &Vec<String>, names: &Vec<String>) -> (r: Result<
    Vec<u64>,
    String,
>)
    requires
        forall|i: int| 0 <= i < members.deep_view().len()
            ==> member_entry_ok(#[trigger] members.deep_view()[i]),
    ensures
        r matches Ok(ids) ==> resolve_user_ids(
            member_map(members.deep_view()),
            names.deep_view(),
        ) == Some(ids@),
        r is Err ==> resolve_user_ids(member_map(members.deep_view()), names.deep_view())
            is None,
{
    let ghost mdv = members.deep_view();
    let ghost mm = member_map(mdv);
    let ghost ns = names.deep_view();

    let mut pairs: Vec<(String, u64)> = Vec::new();
    let mut k: usize = 0;
    while k < members.len()
        invariant
            k <= members@.len(),
            mdv == members.deep_view(),
            mdv.len() == members@.len(),
            forall|i: int| 0 <= i < mdv.len() ==> member_entry_ok(#[trigger] mdv[i]),
            pairs.deep_view().len() == k,
            forall|j: int| 0 <= j < k ==> #[trigger] pairs.deep_view()[j]
                == (member_name(mdv[j]), member_id_val(mdv[j])),
        decreases members@.len() - k,
    {
        proof {
            assert(mdv[k as int] == members@[k as int]@);
        }
        let ghost before = pairs.deep_view();
        let (name, id) = parse_member(members[k].as_str());
        let ghost nm = name@;
        pairs.push((name, id));
        proof {
            assert(pairs.deep_view() =~= before.push((nm, id)));
        }
        k = k + 1;
    }
    proof {
        assert(pairs.deep_view() =~= member_pairs(mdv));
    }

    let mut ids: Vec<u64> = Vec::new();
    let mut i: usize = 0;
    proof {
        assert(ns.take(0) =~= Seq::<Seq<char>>::empty());
        assert(ns.skip(0) =~= ns);
        assert(remove_keys(mm, ns.take(0)) =~= mm);
    }
    while i < names.len()
        invariant
            i <= names@.len(),
            mdv == members.deep_view(),
            ns == names.deep_view(),
            ns.len() == names@.len(),
            mm == member_map(mdv),
            pairs.deep_view() == member_pairs(mdv),
            ids@.len() == i,
            resolve_user_ids(mm, ns) == (match resolve_user_ids(
                remove_keys(mm, ns.take(i as int)),
                ns.skip(i as int),
            ) {
                Some(rest) => Some(ids@ + rest),
                None => None::<Seq<u64>>,
            }),
        decreases names@.len() - i,
    {
        let ghost m_i = remove_keys(mm, ns.take(i as int));
        let n = &names[i];
        proof {
            assert(ns[i as int] == n@);
            assert(ns.skip(i as int)[0] == ns[i as int]);
            assert(ns.skip(i as int).drop_first() =~= ns.skip(i as int + 1));
            assert(ns.take(i as int + 1).drop_last() =~= ns.take(i as int));
            assert(ns.take(i as int + 1).last() == ns[i as int]);
            lemma_remove_keys(mm, ns.take(i as int), n@);
        }

        let mut requested_before = false;
        let mut j: usize = 0;
        while j < i
            invariant
                j <= i <= names@.len(),
                i < names@.len(),
                ns == names.deep_view(),
                ns.len() == names@.len(),
                n@ == ns[i as int],
                requested_before ==> ns.take(i as int).contains(n@),
                !requested_before ==> forall|w: int| 0 <= w < j ==> ns[w] != n@,
            decreases i - j,
        {
            proof {
                assert(ns[j as int] == names@[j as int]@);
            }
            if str_eq(names[j].as_str(), n.as_str()) {
                proof {
                    assert(ns.take(i as int)[j as int] == n@);
                    assert(ns.take(i as int).contains(n@));
                }
                requested_before = true;
            }
            j = j + 1;
        }
        proof {
            if !requested_before && ns.take(i as int).contains(n@) {
                let w = choose|w: int|
                    0 <= w < ns.take(i as int).len() && ns.take(i as int)[w] == n@;
                assert(ns[w] == n@);
                assert(false);
            }
        }

        let found = if requested_before {
            None
        } else {
            lookup_last_pair(&pairs, n.as_str())
        };
        match found {
            Some(id) => {
                proof {
                    assert(mm.contains_key(n@) && mm[n@] == id);
                    assert(m_i.contains_key(n@) && m_i[n@] == id);
                    assert(m_i.remove(n@) =~= remove_keys(mm, ns.take(i as int + 1)));
                }
                let ghost old_ids = ids@;
                ids.push(id);
                proof {
                    let next = resolve_user_ids(
                        remove_keys(mm, ns.take(i as int + 1)),
                        ns.skip(i as int + 1),
                    );
                    assert(resolve_user_ids(m_i, ns.skip(i as int)) == (match next {
                        Some(rest) => Some(seq![id] + rest),
                        None => None::<Seq<u64>>,
                    }));
                    if next is Some {
                        assert(old_ids + (seq![id] + next.unwrap()) =~= ids@ + next.unwrap());
                    }
                }
                i = i + 1;
            }
            None => {
                proof {
                    if requested_before {
                        assert(!m_i.contains_key(n@));
                    } else {
                        assert(!mm.contains_key(n@));
                        assert(!m_i.contains_key(n@));
                    }
                    assert(resolve_user_ids(m_i, ns.skip(i as int)) is None);
                }
                let mut msg = String::new();
                msg.append("Username `");
                msg.append(n.as_str());
                msg.append("` not found. If user is a project member, run `git lab project refresh` ");
                return Err(msg);
            }
        }
    }
    proof {
        assert(ns.skip(ns.len() as int) =~= Seq::<Seq<char>>::empty());
        assert(resolve_user_ids(remove_keys(mm, ns.take(ns.len() as int)), ns.skip(ns.len() as int))
            == Some(Seq::<u64>::empty()));
        assert(ids@ + Seq::<u64>::empty() =~= ids@);
    }
    Ok(ids)
}

/// The id of the last member-cache pair carrying a username, if any.
fn lookup_last_pair(pairs: &Vec<(String, u64)>, n: &str) -> (r: Option<u64>)
    ensures
        r matches Some(v) ==> pairs_map(pairs.deep_view()).contains_key(n@)
            && pairs_map(pairs.deep_view())[n@] == v,
        r is None ==> !pairs_map(pairs.deep_view()).contains_key(n@),
{
    let ghost ps = pairs.deep_view();
    let mut k: usize = pairs.len();
    while k > 0
        invariant
            k <= pairs@.len(),
            ps == pairs.deep_view(),
            ps.len() == pairs@.len(),
            forall|j: int| k <= j < ps.len() ==> (#[trigger] ps[j]).0 != n@,
        decreases k,
    {
        k = k - 1;
        if str_eq(pairs[k].0.as_str(), n) {
            proof {
                assert(ps[k as int] == (pairs@[k as int].0@, pairs@[k as int].1));
                assert(ps[k as int].0 == n@);
                lemma_pairs_map_value(ps, n@, k as int);
            }
            return Some(pairs[k].1);
        }
        proof {
            assert(ps[k as int] == (pairs@[k as int].0@, pairs@[k as int].1));
            assert(ps[k as int].0 != n@);
        }
    }
    proof {
        lemma_pairs_map_contains(ps, n@);
        if pairs_map(ps).contains_key(n@) {
            let w = choose|w: int| 0 <= w < ps.len() && (#[trigger] ps[w]).0 == n@;
            assert(false);
        }
    }
    None
}

} // verus!
