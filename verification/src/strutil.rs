//! Small verified string utilities: decimal formatting and parsing of
//! unsigned integers, prefix tests and character-level comparisons.
//!
//! Branch names, issue ids and configuration values in this crate are all
//! plain strings, so the rest of the library is built on these helpers.

use vstd::prelude::*;
use vstd::string::StrSliceExecFns;

verus! {

/// The decimal digit character for a value below ten.
pub open spec fn digit_char(d: nat) -> char {
    if d == 0 {
        '0'
    } else if d == 1 {
        '1'
    } else if d == 2 {
        '2'
    } else if d == 3 {
        '3'
    } else if d == 4 {
        '4'
    } else if d == 5 {
        '5'
    } else if d == 6 {
        '6'
    } else if d == 7 {
        '7'
    } else if d == 8 {
        '8'
    } else {
        '9'
    }
}

/// The decimal rendering of `n`, most significant digit first, with no
/// leading zeros (and a single `'0'` for zero itself).
pub open spec fn dec_str_of(n: nat) -> Seq<char>
    decreases n,
{
    if n < 10 {
        seq![digit_char(n)]
    } else {
        dec_str_of(n / 10).push(digit_char(n % 10))
    }
}

/// True iff `c` is an ASCII decimal digit.
pub open spec fn is_digit(c: char) -> bool {
    48 <= c as u32 <= 57
}

/// The numeric value of a digit character.
pub open spec fn digit_val(c: char) -> int {
    c as u32 - 48
}

/// True iff `s` is non-empty and made of decimal digits only.
pub open spec fn all_digits(s: Seq<char>) -> bool {
    s.len() > 0 && forall|i: int| 0 <= i < s.len() ==> is_digit(#[trigger] s[i])
}

/// The value of a digit string, read in base ten.
pub open spec fn dec_val(s: Seq<char>) -> int
    decreases s.len(),
{
    if s.len() == 0 {
        0
    } else {
        dec_val(s.drop_last()) * 10 + digit_val(s.last())
    }
}

/// The digit part of a decimal integer literal as `str::parse` of an
/// unsigned type sees it: everything after an optional leading `'+'`.
pub open spec fn unsigned_digits(s: Seq<char>) -> Seq<char> {
    if s.len() > 0 && s[0] == '+' {
        s.drop_first()
    } else {
        s
    }
}

/// True iff `str::parse::<u64>` accepts `s`: an optional `'+'`, then at
/// least one digit, with a value that fits in a `u64`.
pub open spec fn is_u64_str(s: Seq<char>) -> bool {
    all_digits(unsigned_digits(s)) && dec_val(unsigned_digits(s)) <= u64::MAX
}

/// True iff `str::parse::<u32>` accepts `s`.
pub open spec fn is_u32_str(s: Seq<char>) -> bool {
    all_digits(unsigned_digits(s)) && dec_val(unsigned_digits(s)) <= u32::MAX
}

/// A one-character string slice for a digit value.
fn digit_str(d: u64) -> (r: &'static str)
    requires
        d < 10,
    ensures
        r@ =~= seq![digit_char(d as nat)],
{
    proof {
        reveal_strlit("0");
        reveal_strlit("1");
        reveal_strlit("2");
        reveal_strlit("3");
        reveal_strlit("4");
        reveal_strlit("5");
        reveal_strlit("6");
        reveal_strlit("7");
        reveal_strlit("8");
        reveal_strlit("9");
    }
    match d {
        0 => "0",
        1 => "1",
        2 => "2",
        3 => "3",
        4 => "4",
        5 => "5",
        6 => "6",
        7 => "7",
        8 => "8",
        _ => "9",
    }
}

/// Rendering and reading decimals are inverse: the decimal string of `n`
/// is made of digits and reads back as `n`, so `parse_u64` accepts
/// exactly what `u64_to_string` writes.
pub proof fn lemma_dec_str_of_value(n: nat)
    ensures
        all_digits(dec_str_of(n)),
        dec_val(dec_str_of(n)) == n,
    decreases n,
{
    if n < 10 {
        assert(dec_str_of(n) =~= seq![digit_char(n)]);
        assert(is_digit(digit_char(n)));
        assert(seq![digit_char(n)].drop_last() =~= Seq::<char>::empty());
        assert(dec_val(Seq::<char>::empty()) == 0);
        assert(dec_val(seq![digit_char(n)]) == digit_val(digit_char(n)));
        assert(digit_val(digit_char(n)) == n);
    } else {
        lemma_dec_str_of_value(n / 10);
        let whole = dec_str_of(n);
        assert(whole =~= dec_str_of(n / 10).push(digit_char(n % 10)));
        assert(whole.drop_last() =~= dec_str_of(n / 10));
        assert(whole.last() == digit_char(n % 10));
        assert(digit_val(digit_char(n % 10)) == n % 10);
        assert forall|i: int| 0 <= i < whole.len() implies is_digit(#[trigger] whole[i]) by {
            if i < whole.len() - 1 {
                assert(whole[i] == dec_str_of(n / 10)[i]);
            }
        }
        assert(dec_val(whole) == dec_val(whole.drop_last()) * 10 + digit_val(whole.last()));
        assert((n / 10) * 10 + n % 10 == n);
    }
}

/// The digit characters for a sequence of digit values read from the last
/// element (most significant) down to the first.
pub open spec fn rev_chars(ds: Seq<u64>) -> Seq<char> {
    Seq::new(ds.len(), |i: int| digit_char(ds[ds.len() - 1 - i] as nat))
}

/// Renders `n` in decimal, matching `dec_str_of`.
pub fn u64_to_string(n: u64) -> (s: String)
    ensures
        s@ == dec_str_of(n as nat),
{
    let mut digits: Vec<u64> = Vec::new();
    let mut m: u64 = n;
    loop
        invariant_except_break
            forall|i: int| 0 <= i < digits@.len() ==> #[trigger] digits@[i] < 10,
            dec_str_of(n as nat) == dec_str_of(m as nat) + rev_chars(digits@),
        ensures
            forall|i: int| 0 <= i < digits@.len() ==> #[trigger] digits@[i] < 10,
            dec_str_of(n as nat) == rev_chars(digits@),
        decreases m,
    {
        let d: u64 = m % 10;
        let next: u64 = m / 10;
        proof {
            assert(rev_chars(digits@.push(d)) =~= seq![digit_char(d as nat)] + rev_chars(digits@));
            if next > 0 {
                assert(dec_str_of(m as nat) == dec_str_of(next as nat).push(digit_char((m % 10) as nat)));
                assert(dec_str_of(next as nat) + rev_chars(digits@.push(d))
                    =~= dec_str_of(m as nat) + rev_chars(digits@));
            } else {
                assert(dec_str_of(m as nat) =~= seq![digit_char(d as nat)]);
                assert(seq![digit_char(d as nat)] + rev_chars(digits@)
                    =~= rev_chars(digits@.push(d)));
            }
        }
        digits.push(d);
        if next == 0 {
            break;
        }
        m = next;
    }
    let ghost out = rev_chars(digits@);
    let mut s = String::new();
    let mut j: usize = digits.len();
    proof {
        assert(s@ =~= out.subrange(0, (digits@.len() - j) as int));
    }
    while j > 0
        invariant
            j <= digits@.len(),
            forall|i: int| 0 <= i < digits@.len() ==> #[trigger] digits@[i] < 10,
            out == rev_chars(digits@),
            dec_str_of(n as nat) == out,
            s@ == out.subrange(0, (digits@.len() - j) as int),
        decreases j,
    {
        j = j - 1;
        let d: u64 = digits[j];
        s.append(digit_str(d));
        proof {
            let l = digits@.len() as int;
            assert(out[l - 1 - j] == digit_char(digits@[j as int] as nat));
            assert(out.subrange(0, l - j) =~= out.subrange(0, l - j - 1)
                + seq![out[l - 1 - j]]);
        }
    }
    proof {
        assert(out.subrange(0, digits@.len() as int) =~= out);
    }
    s
}

proof fn lemma_dec_val_nonneg(t: Seq<char>)
    requires
        forall|i: int| 0 <= i < t.len() ==> is_digit(#[trigger] t[i]),
    ensures
        dec_val(t) >= 0,
    decreases t.len(),
{
    if t.len() > 0 {
        lemma_dec_val_nonneg(t.drop_last());
    }
}

proof fn lemma_dec_val_prefix_le(t: Seq<char>, k: int)
    requires
        forall|i: int| 0 <= i < t.len() ==> is_digit(#[trigger] t[i]),
        0 <= k <= t.len(),
    ensures
        dec_val(t.subrange(0, k)) <= dec_val(t),
    decreases t.len() - k,
{
    if k == t.len() {
        assert(t.subrange(0, k) =~= t);
    } else {
        let shorter = t.subrange(0, k);
        let longer = t.subrange(0, k + 1);
        assert(longer.drop_last() =~= shorter);
        lemma_dec_val_nonneg(shorter);
        assert(dec_val(longer) == dec_val(shorter) * 10 + digit_val(t[k]));
        lemma_dec_val_prefix_le(t, k + 1);
    }
}

/// Parses `s` as `str::parse::<u64>` does: an optional leading `'+'`,
/// then decimal digits, rejecting anything else and values past `u64::MAX`.
pub fn parse_u64(s: &str) -> (r: Option<u64>)
    ensures
        r matches Some(v) ==> is_u64_str(s@) && v == dec_val(unsigned_digits(s@)),
        r is None ==> !is_u64_str(s@),
{
    let len = s.unicode_len();
    let mut i: usize = 0;
    if len > 0 && s.get_char(0) == '+' {
        i = 1;
    }
    let ghost off = i as int;
    let ghost ds = unsigned_digits(s@);
    proof {
        assert(ds =~= s@.subrange(off, s@.len() as int));
    }
    if i == len {
        proof {
            assert(ds.len() == 0);
            assert(!all_digits(ds));
        }
        return None;
    }
    let mut acc: u64 = 0;
    while i < len
        invariant
            len == s@.len(),
            0 <= off <= i <= len,
            ds == unsigned_digits(s@),
            ds == s@.subrange(off, s@.len() as int),
            ds.len() == len - off,
            forall|k: int| 0 <= k < i - off ==> is_digit(#[trigger] ds[k]),
            acc == dec_val(ds.subrange(0, i - off)),
        decreases len - i,
    {
        let c = s.get_char(i);
        let cv = c as u32;
        if cv < 48 || cv > 57 {
            proof {
                assert(s@.subrange(off, s@.len() as int)[i - off] == s@[i as int]);
                assert(!is_digit(ds[i - off]));
                assert(!all_digits(ds));
            }
            return None;
        }
        let d: u64 = (cv - 48) as u64;
        proof {
            assert(ds.subrange(0, i - off + 1).drop_last() =~= ds.subrange(0, i - off));
            assert(ds.subrange(0, i - off + 1).last() == s@[i as int]);
        }
        let step = acc.checked_mul(10);
        let next = match step {
            Some(t) => t.checked_add(d),
            None => None,
        };
        match next {
            Some(v) => {
                acc = v;
            }
            None => {
                proof {
                    assert(s@.subrange(off, s@.len() as int)[i - off] == s@[i as int]);
                    assert(digit_val(ds.subrange(0, i - off + 1).last()) == d);
                    assert(dec_val(ds.subrange(0, i - off + 1)) == acc * 10 + d);
                    assert(acc * 10 + d > u64::MAX);
                    if all_digits(ds) {
                        lemma_dec_val_prefix_le(ds, i - off + 1);
                    }
                }
                return None;
            }
        }
        i = i + 1;
    }
    proof {
        assert(ds.subrange(0, i - off) =~= ds);
        assert(ds.len() > 0);
        assert(all_digits(ds));
    }
    Some(acc)
}

/// Parses `s` as `str::parse::<u32>` does.
pub fn parse_u32(s: &str) -> (r: Option<u32>)
    ensures
        r matches Some(v) ==> is_u32_str(s@) && v == dec_val(unsigned_digits(s@)),
        r is None ==> !is_u32_str(s@),
{
    match parse_u64(s) {
        Some(v) => {
            if v <= u32::MAX as u64 {
                Some(v as u32)
            } else {
                None
            }
        }
        None => None,
    }
}

/// Character-for-character equality of two string slices.
pub fn str_eq(a: &str, b: &str) -> (r: bool)
    ensures
        r == (a@ == b@),
{
    let alen = a.unicode_len();
    let blen = b.unicode_len();
    if alen != blen {
        proof {
            assert(a@ != b@);
        }
        return false;
    }
    let mut i: usize = 0;
    while i < alen
        invariant
            alen == a@.len(),
            blen == b@.len(),
            alen == blen,
            i <= alen,
            forall|k: int| 0 <= k < i ==> a@[k] == b@[k],
        decreases alen - i,
    {
        if a.get_char(i) != b.get_char(i) {
            proof {
                assert(a@[i as int] != b@[i as int]);
            }
            return false;
        }
        i = i + 1;
    }
    proof {
        assert(a@ =~= b@);
    }
    true
}

/// True iff `p` is a prefix of `s`, character for character.
pub fn str_starts_with(s: &str, p: &str) -> (r: bool)
    ensures
        r == p@.is_prefix_of(s@),
{
    let slen = s.unicode_len();
    let plen = p.unicode_len();
    if plen > slen {
        proof {
            assert(!p@.is_prefix_of(s@));
        }
        return false;
    }
    let mut i: usize = 0;
    while i < plen
        invariant
            slen == s@.len(),
            plen == p@.len(),
            plen <= slen,
            i <= plen,
            forall|k: int| 0 <= k < i ==> s@[k] == p@[k],
        decreases plen - i,
    {
        if s.get_char(i) != p.get_char(i) {
            proof {
                assert(s@[i as int] != p@[i as int]);
                assert(!p@.is_prefix_of(s@));
            }
            return false;
        }
        i = i + 1;
    }
    proof {
        assert(p@ =~= s@.subrange(0, p@.len() as int));
    }
    true
}

/// Lexicographic order on character sequences, by code point — the order
/// `str` comparison gives, since UTF-8 preserves code-point order.
pub open spec fn lex_le(a: Seq<char>, b: Seq<char>) -> bool
    decreases a.len(),
{
    if a.len() == 0 {
        true
    } else if b.len() == 0 {
        false
    } else if (a[0] as u32) < (b[0] as u32) {
        true
    } else if (b[0] as u32) < (a[0] as u32) {
        false
    } else {
        lex_le(a.drop_first(), b.drop_first())
    }
}

/// Any two sequences are ordered one way or the other.
pub proof fn lemma_lex_le_total(a: Seq<char>, b: Seq<char>)
    ensures
        lex_le(a, b) || lex_le(b, a),
    decreases a.len(),
{
    if a.len() > 0 && b.len() > 0 && a[0] as u32 == b[0] as u32 {
        lemma_lex_le_total(a.drop_first(), b.drop_first());
    }
}

/// The lexicographic order is transitive.
pub proof fn lemma_lex_le_trans(a: Seq<char>, b: Seq<char>, c: Seq<char>)
    requires
        lex_le(a, b),
        lex_le(b, c),
    ensures
        lex_le(a, c),
    decreases a.len(),
{
    if a.len() > 0 && b.len() > 0 && c.len() > 0 && a[0] as u32 == b[0] as u32
        && b[0] as u32 == c[0] as u32 {
        lemma_lex_le_trans(a.drop_first(), b.drop_first(), c.drop_first());
    }
}

/// Decides [`lex_le`] on two string slices.
pub fn str_lex_le(a: &str, b: &str) -> (r: bool)
    ensures
        r == lex_le(a@, b@),
{
    let alen = a.unicode_len();
    let blen = b.unicode_len();
    let mut i: usize = 0;
    proof {
        assert(a@.skip(0) =~= a@);
        assert(b@.skip(0) =~= b@);
    }
    loop
        invariant_except_break
            i <= alen,
            i <= blen,
            alen == a@.len(),
            blen == b@.len(),
            lex_le(a@, b@) == lex_le(a@.skip(i as int), b@.skip(i as int)),
        ensures
            lex_le(a@, b@) == lex_le(a@.skip(i as int), b@.skip(i as int)),
            (i >= alen || i >= blen || a@[i as int] as u32 != b@[i as int] as u32),
            i <= alen && i <= blen,
        decreases alen - i,
    {
        if i >= alen || i >= blen {
            break;
        }
        let ca = a.get_char(i);
        let cb = b.get_char(i);
        if (ca as u32) != (cb as u32) {
            break;
        }
        proof {
            let ra = a@.skip(i as int);
            let rb = b@.skip(i as int);
            assert(ra[0] == a@[i as int] && rb[0] == b@[i as int]);
            assert(ra.drop_first() =~= a@.skip(i as int + 1));
            assert(rb.drop_first() =~= b@.skip(i as int + 1));
            assert(lex_le(ra, rb) == lex_le(a@.skip(i as int + 1), b@.skip(i as int + 1)));
        }
        i = i + 1;
    }
    proof {
        let ra = a@.skip(i as int);
        let rb = b@.skip(i as int);
        if i < alen && i < blen {
            assert(ra[0] == a@[i as int] && rb[0] == b@[i as int]);
        } else {
            assert(ra.len() == 0 || rb.len() == 0);
        }
    }
    if i >= alen {
        true
    } else if i >= blen {
        false
    } else {
        let ca = a.get_char(i);
        let cb = b.get_char(i);
        (ca as u32) < (cb as u32)
    }
}

/// True iff `p` is a suffix of `s`, character for character.
pub fn str_ends_with(s: &str, p: &str) -> (r: bool)
    ensures
        r == p@.is_suffix_of(s@),
{
    let slen = s.unicode_len();
    let plen = p.unicode_len();
    if plen > slen {
        proof {
            assert(!p@.is_suffix_of(s@));
        }
        return false;
    }
    let base = slen - plen;
    let mut i: usize = 0;
    while i < plen
        invariant
            slen == s@.len(),
            plen == p@.len(),
            plen <= slen,
            base == slen - plen,
            i <= plen,
            forall|k: int| 0 <= k < i ==> s@[base + k] == p@[k],
        decreases plen - i,
    {
        if s.get_char(base + i) != p.get_char(i) {
            proof {
                assert(s@[base + i] != p@[i as int]);
                assert(!p@.is_suffix_of(s@));
            }
            return false;
        }
        i = i + 1;
    }
    proof {
        assert(p@ =~= s@.subrange(s@.len() - p@.len(), s@.len() as int));
    }
    true
}

} // verus!
