//! Character-level text utilities.
//!
//! Captured command output is trimmed of surrounding whitespace, multiple
//! command outputs are joined with newlines, and a script body consisting
//! only of whitespace counts as absent.  These operations are defined here
//! over `Seq<char>` and implemented against those definitions.

use vstd::prelude::*;
use vstd::string::*;

verus! {

/// The whitespace characters trimmed from command output: the Unicode
/// white-space characters, as the standard library's whitespace test draws
/// the set.
pub open spec fn is_space_char(c: char) -> bool {
    ||| c == ' '
    ||| c == '\t'
    ||| c == '\n'
    ||| c == '\u{000B}'
    ||| c == '\u{000C}'
    ||| c == '\r'
    ||| c == '\u{0085}'
    ||| c == '\u{00A0}'
    ||| c == '\u{1680}'
    ||| ('\u{2000}' <= c && c <= '\u{200A}')
    ||| c == '\u{2028}'
    ||| c == '\u{2029}'
    ||| c == '\u{202F}'
    ||| c == '\u{205F}'
    ||| c == '\u{3000}'
}

/// `s` with every leading and trailing whitespace character removed.
pub open spec fn trim_chars(s: Seq<char>) -> Seq<char>
    decreases s.len(),
{
    if s.len() == 0 {
        s
    } else if is_space_char(s[0]) {
        trim_chars(s.drop_first())
    } else if is_space_char(s.last()) {
        trim_chars(s.drop_last())
    } else {
        s
    }
}

/// Trimming yields exactly the subrange that strips maximal whitespace
/// margins.
proof fn lemma_trim_subrange(s: Seq<char>, a: int, b: int)
    requires
        0 <= a <= b <= s.len(),
        forall|i: int| 0 <= i < a ==> is_space_char(#[trigger] s[i]),
        forall|i: int| b <= i < s.len() ==> is_space_char(#[trigger] s[i]),
        a < b ==> !is_space_char(s[a]) && !is_space_char(s[b - 1]),
    ensures
        trim_chars(s) =~= s.subrange(a, b),
    decreases s.len(),
{
    if s.len() == 0 {
    } else if is_space_char(s[0]) {
        assert(a > 0 || a == b) by {
            if a == 0 && a < b {
                assert(!is_space_char(s[0]));
            }
        }
        if a == b {
            if a == 0 {
                lemma_trim_subrange(s.drop_first(), 0, 0);
            } else {
                lemma_trim_subrange(s.drop_first(), a - 1, b - 1);
            }
        } else {
            lemma_trim_subrange(s.drop_first(), a - 1, b - 1);
        }
    } else if is_space_char(s.last()) {
        assert(b < s.len() || a == b) by {
            if b == s.len() && a < b {
                assert(!is_space_char(s[b - 1]));
            }
        }
        if a == b && b == s.len() {
            lemma_trim_subrange(s.drop_last(), a - 1, b - 1);
        } else {
            lemma_trim_subrange(s.drop_last(), a, b);
        }
    } else {
        assert(a == 0 && b == s.len()) by {
            if a > 0 {
                assert(is_space_char(s[0]));
            }
            if b < s.len() {
                assert(is_space_char(s[s.len() - 1]));
            }
        }
    }
}

/// A trimmed sequence is empty exactly when every character is whitespace.
pub proof fn lemma_trim_empty(s: Seq<char>)
    ensures
        trim_chars(s).len() == 0 <==> (forall|i: int|
            0 <= i < s.len() ==> is_space_char(#[trigger] s[i])),
    decreases s.len(),
{
    if s.len() == 0 {
    } else if is_space_char(s[0]) {
        lemma_trim_empty(s.drop_first());
        assert(forall|j: int|
            0 <= j < s.drop_first().len() ==> #[trigger] s.drop_first()[j] == s[j + 1]);
        if trim_chars(s).len() == 0 {
            assert forall|i: int| 0 <= i < s.len() implies is_space_char(#[trigger] s[i]) by {
                if i > 0 {
                    assert(is_space_char(s.drop_first()[i - 1]));
                }
            }
        } else {
            assert(exists|j: int|
                0 <= j < s.drop_first().len() && !is_space_char(#[trigger] s.drop_first()[j]));
            let j = choose|j: int|
                0 <= j < s.drop_first().len() && !is_space_char(#[trigger] s.drop_first()[j]);
            assert(!is_space_char(s[j + 1]));
        }
    } else if is_space_char(s.last()) {
        lemma_trim_empty(s.drop_last());
        assert(forall|j: int|
            0 <= j < s.drop_last().len() ==> #[trigger] s.drop_last()[j] == s[j]);
        if trim_chars(s).len() == 0 {
            assert forall|i: int| 0 <= i < s.len() implies is_space_char(#[trigger] s[i]) by {
                if i < s.len() - 1 {
                    assert(is_space_char(s.drop_last()[i]));
                }
            }
        } else {
            let j = choose|j: int|
                0 <= j < s.drop_last().len() && !is_space_char(#[trigger] s.drop_last()[j]);
            assert(!is_space_char(s[j]));
        }
    } else {
        assert(!is_space_char(s[0]));
    }
}

/// Whether a character is trimmed whitespace.
pub fn is_space(c: char) -> (r: bool)
    ensures
        r == is_space_char(c),
{
    c == ' ' || c == '\t' || c == '\n' || c == '\u{000B}' || c == '\u{000C}' || c == '\r'
        || c == '\u{0085}' || c == '\u{00A0}' || c == '\u{1680}' || ('\u{2000}' <= c && c
        <= '\u{200A}') || c == '\u{2028}' || c == '\u{2029}' || c == '\u{202F}' || c == '\u{205F}'
        || c == '\u{3000}'
}

/// Removes leading and trailing whitespace from `s`.
pub fn trim_str(s: &str) -> (r: String)
    ensures
        r@ == trim_chars(s@),
{
    let len = s.unicode_len();
    let mut start: usize = 0;
    while start < len && is_space(s.get_char(start))
        invariant
            0 <= start <= len,
            len == s@.len(),
            forall|i: int| 0 <= i < start ==> is_space_char(#[trigger] s@[i]),
        decreases len - start,
    {
        start = start + 1;
    }
    let mut end: usize = len;
    while end > start && is_space(s.get_char(end - 1))
        invariant
            start <= end <= len,
            len == s@.len(),
            forall|i: int| 0 <= i < start ==> is_space_char(#[trigger] s@[i]),
            forall|i: int| end <= i < len ==> is_space_char(#[trigger] s@[i]),
            start < len ==> !is_space_char(s@[start as int]),
        decreases end,
    {
        end = end - 1;
    }
    proof {
        lemma_trim_subrange(s@, start as int, end as int);
    }
    let sub = s.substring_char(start, end);
    sub.to_owned()
}

/// Whether `s` is empty once trimmed, i.e. holds no non-whitespace character.
pub fn is_blank(s: &str) -> (r: bool)
    ensures
        r == (trim_chars(s@).len() == 0),
{
    let len = s.unicode_len();
    let mut i: usize = 0;
    while i < len
        invariant
            0 <= i <= len,
            len == s@.len(),
            forall|j: int| 0 <= j < i ==> is_space_char(#[trigger] s@[j]),
        decreases len - i,
    {
        if !is_space(s.get_char(i)) {
            proof {
                lemma_trim_empty(s@);
            }
            return false;
        }
        i = i + 1;
    }
    proof {
        lemma_trim_empty(s@);
    }
    true
}

/// Whether two string slices hold the same characters.
pub fn str_eq(a: &str, b: &str) -> (r: bool)
    ensures
        r == (a@ == b@),
{
    let alen = a.unicode_len();
    let blen = b.unicode_len();
    if alen != blen {
        return false;
    }
    let mut i: usize = 0;
    while i < alen
        invariant
            0 <= i <= alen,
            alen == a@.len(),
            alen == b@.len(),
            forall|j: int| 0 <= j < i ==> a@[j] == b@[j],
        decreases alen - i,
    {
        if a.get_char(i) != b.get_char(i) {
            return false;
        }
        i = i + 1;
    }
    proof {
        assert(a@ =~= b@);
    }
    true
}

/// Whether `pat` occurs in `s` at position `i`.
pub open spec fn matches_at(s: Seq<char>, i: int, pat: Seq<char>) -> bool {
    0 <= i && i + pat.len() <= s.len() && s.subrange(i, i + pat.len() as int) == pat
}

/// The first position at or after `from` where `pat` occurs in `s`, or -1.
pub open spec fn find_at(s: Seq<char>, pat: Seq<char>, from: int) -> int
    decreases s.len() + 1 - from,
{
    if from < 0 || from + pat.len() > s.len() {
        -1
    } else if matches_at(s, from, pat) {
        from
    } else {
        find_at(s, pat, from + 1)
    }
}

/// Whether `pat` occurs anywhere in `s`.
pub open spec fn spec_contains(s: Seq<char>, pat: Seq<char>) -> bool {
    find_at(s, pat, 0) >= 0
}

/// Whether `s` ends with `suffix`.
pub open spec fn spec_ends_with(s: Seq<char>, suffix: Seq<char>) -> bool {
    suffix.len() <= s.len() && s.subrange(s.len() - suffix.len(), s.len() as int) == suffix
}

/// What `find_at` finds is an occurrence, and the first one.
pub proof fn lemma_find_at(s: Seq<char>, pat: Seq<char>, from: int)
    requires
        0 <= from,
    ensures
        find_at(s, pat, from) >= 0 ==> from <= find_at(s, pat, from) && matches_at(
            s,
            find_at(s, pat, from),
            pat,
        ) && (forall|j: int| from <= j < find_at(s, pat, from) ==> !matches_at(s, j, pat)),
        find_at(s, pat, from) < 0 ==> (forall|j: int| from <= j ==> !matches_at(s, j, pat)),
    decreases s.len() + 1 - from,
{
    if from + pat.len() > s.len() {
        assert forall|j: int| from <= j implies !matches_at(s, j, pat) by {}
    } else if matches_at(s, from, pat) {
    } else {
        lemma_find_at(s, pat, from + 1);
    }
}

/// Whether `pat` occurs in `s` at position `i`.
pub fn match_at(s: &str, i: usize, pat: &str) -> (r: bool)
    requires
        i + pat@.len() <= s@.len(),
    ensures
        r == matches_at(s@, i as int, pat@),
{
    let slen = s.unicode_len();
    let plen = pat.unicode_len();
    let mut k: usize = 0;
    while k < plen
        invariant
            0 <= k <= plen,
            plen == pat@.len(),
            slen == s@.len(),
            i + plen <= s@.len(),
            forall|m: int| 0 <= m < k ==> s@[i + m] == pat@[m],
        decreases plen - k,
    {
        if s.get_char(i + k) != pat.get_char(k) {
            proof {
                assert(s@.subrange(i as int, i + plen) != pat@) by {
                    assert(s@.subrange(i as int, i + plen)[k as int] == s@[i + k]);
                }
            }
            return false;
        }
        k = k + 1;
    }
    proof {
        assert(s@.subrange(i as int, i + plen) =~= pat@);
    }
    true
}

/// The first position at or after `from` where `pat` occurs in `s`.
pub fn find_from(s: &str, pat: &str, from: usize) -> (r: Option<usize>)
    ensures
        r matches Some(i) ==> i as int == find_at(s@, pat@, from as int),
        r is None <==> find_at(s@, pat@, from as int) < 0,
{
    let slen = s.unicode_len();
    let plen = pat.unicode_len();
    if plen > slen {
        return None;
    }
    let limit = slen - plen;
    if from > limit {
        return None;
    }
    let mut i: usize = from;
    while i <= limit
        invariant
            from <= i <= limit + 1,
            plen <= slen,
            limit == slen - plen,
            slen == s@.len(),
            plen == pat@.len(),
            find_at(s@, pat@, from as int) == find_at(s@, pat@, i as int),
        decreases limit - i,
    {
        if match_at(s, i, pat) {
            return Some(i);
        }
        if i == limit {
            proof {
                assert(find_at(s@, pat@, i as int) == find_at(s@, pat@, i + 1));
                assert(find_at(s@, pat@, i + 1) == -1);
            }
            return None;
        }
        i = i + 1;
    }
    None
}

/// Whether `pat` occurs anywhere in `s`.
pub fn contains_str(s: &str, pat: &str) -> (r: bool)
    ensures
        r == spec_contains(s@, pat@),
{
    find_from(s, pat, 0).is_some()
}

/// Whether `s` ends with `suffix`.
pub fn ends_with_str(s: &str, suffix: &str) -> (r: bool)
    ensures
        r == spec_ends_with(s@, suffix@),
{
    let slen = s.unicode_len();
    let plen = suffix.unicode_len();
    if plen > slen {
        return false;
    }
    match_at(s, slen - plen, suffix)
}

/// `c` with an ASCII capital letter mapped to its small form; any other
/// character is unchanged.
pub open spec fn lower_char(c: char) -> char {
    if 'A' <= c && c <= 'Z' {
        (((c as u32) + 32) as u8) as char
    } else {
        c
    }
}

/// `s` with every ASCII capital letter mapped to its small form.
pub open spec fn lower_chars(s: Seq<char>) -> Seq<char> {
    s.map_values(|c: char| lower_char(c))
}

/// Relies on String::push: appends one character.
#[verifier::external_body]
pub fn push_char(s: &mut String, c: char)
    ensures
        final(s)@ == old(s)@.push(c),
{
    s.push(c);
}

/// `s` with every ASCII capital letter mapped to its small form.
pub fn ascii_lower(s: &str) -> (r: String)
    ensures
        r@ == lower_chars(s@),
{
    let len = s.unicode_len();
    let mut out = String::new();
    let mut i: usize = 0;
    while i < len
        invariant
            0 <= i <= len,
            len == s@.len(),
            out@ =~= lower_chars(s@.subrange(0, i as int)),
        decreases len - i,
    {
        let c = s.get_char(i);
        let low: char = if 'A' <= c && c <= 'Z' {
            (((c as u32) + 32) as u8) as char
        } else {
            c
        };
        push_char(&mut out, low);
        proof {
            assert(out@ =~= lower_chars(s@.subrange(0, i + 1)));
        }
        i = i + 1;
    }
    proof {
        assert(s@.subrange(0, s@.len() as int) =~= s@);
    }
    out
}

/// The decimal digit character of `d`.
pub open spec fn digit_char(d: int) -> char {
    ((d + 48) as u8) as char
}

/// The decimal rendering of `n`, most significant digit first, without
/// leading zeros (a single zero for zero itself).
pub open spec fn dec_chars(n: int) -> Seq<char>
    decreases n,
{
    if n < 10 {
        seq![digit_char(n)]
    } else {
        dec_chars(n / 10).push(digit_char(n % 10))
    }
}

/// Renders `n` in decimal.
pub fn u64_dec(n: u64) -> (r: String)
    ensures
        r@ == dec_chars(n as int),
    decreases n,
{
    if n < 10 {
        let mut out = String::new();
        push_char(&mut out, (((n as u32) + 48) as u8) as char);
        proof {
            assert(out@ =~= seq![digit_char(n as int)]);
        }
        out
    } else {
        let mut out = u64_dec(n / 10);
        push_char(&mut out, ((((n % 10) as u32) + 48) as u8) as char);
        out
    }
}

/// The sequence of values joined with copies of `sep` between them.
pub open spec fn join_sep(vals: Seq<Seq<char>>, sep: Seq<char>) -> Seq<char>
    decreases vals.len(),
{
    if vals.len() == 0 {
        Seq::empty()
    } else if vals.len() == 1 {
        vals[0]
    } else {
        join_sep(vals.drop_last(), sep) + sep + vals.last()
    }
}

/// The sequence of values joined with single newline separators.
pub open spec fn join_nl(vals: Seq<Seq<char>>) -> Seq<char> {
    join_sep(vals, seq!['\n'])
}

/// Appending one more value extends the join by a separator and that value.
pub proof fn lemma_join_sep_push(vals: Seq<Seq<char>>, sep: Seq<char>, v: Seq<char>)
    ensures
        vals.len() == 0 ==> join_sep(vals.push(v), sep) == v,
        vals.len() > 0 ==> join_sep(vals.push(v), sep) == join_sep(vals, sep) + sep + v,
{
    let pushed = vals.push(v);
    if vals.len() == 0 {
        assert(pushed[0] == v);
    } else {
        assert(pushed.drop_last() =~= vals);
        assert(pushed.last() == v);
    }
}

/// Joins the values with `sep` between them, in order.
pub fn join_with(vals: &Vec<String>, sep: &str) -> (r: String)
    ensures
        r@ == join_sep(vals.deep_view(), sep@),
{
    let mut out = String::new();
    let mut i: usize = 0;
    while i < vals.len()
        invariant
            0 <= i <= vals.len(),
            out@ == join_sep(vals.deep_view().subrange(0, i as int), sep@),
        decreases vals.len() - i,
    {
        if i > 0 {
            out.append(sep);
        }
        out.append(vals[i].as_str());
        proof {
            let prefix = vals.deep_view().subrange(0, i as int);
            lemma_join_sep_push(prefix, sep@, vals@[i as int]@);
            assert(vals.deep_view().subrange(0, i + 1) =~= prefix.push(vals@[i as int]@));
            if i > 0 {
                assert(out@ =~= join_sep(prefix, sep@) + sep@ + vals@[i as int]@);
            }
        }
        i = i + 1;
    }
    proof {
        assert(vals.deep_view().subrange(0, vals@.len() as int) =~= vals.deep_view());
    }
    out
}

} // verus!
