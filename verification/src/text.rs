//! Character-level string predicates used by the scene, hierarchy and inspector logic.
use vstd::prelude::*;

verus! {

/// `p` is a prefix of `s`.
pub open spec fn has_prefix(s: Seq<char>, p: Seq<char>) -> bool {
    p.len() <= s.len() && s.subrange(0, p.len() as int) == p
}

/// `p` is a suffix of `s`.
pub open spec fn has_suffix(s: Seq<char>, p: Seq<char>) -> bool {
    p.len() <= s.len() && s.subrange(s.len() - p.len(), s.len() as int) == p
}

/// `needle` occurs in `s` at position `i`.
pub open spec fn occurs_at(s: Seq<char>, needle: Seq<char>, i: int) -> bool {
    0 <= i && i + needle.len() <= s.len() && s.subrange(i, i + needle.len()) == needle
}

/// `needle` occurs somewhere in `s` (the empty needle occurs in every string).
pub open spec fn has_substring(s: Seq<char>, needle: Seq<char>) -> bool {
    exists|i: int| occurs_at(s, needle, i)
}

/// The characters that carry the Unicode `White_Space` property (what `char::is_whitespace` tests).
pub open spec fn is_white_space(c: char) -> bool {
    ||| ('\u{9}' <= c && c <= '\u{d}')
    ||| c == ' '
    ||| c == '\u{85}'
    ||| c == '\u{a0}'
    ||| c == '\u{1680}'
    ||| ('\u{2000}' <= c && c <= '\u{200a}')
    ||| c == '\u{2028}'
    ||| c == '\u{2029}'
    ||| c == '\u{202f}'
    ||| c == '\u{205f}'
    ||| c == '\u{3000}'
}

/// `s` without its leading white space.
pub open spec fn trim_start(s: Seq<char>) -> Seq<char>
    decreases s.len(),
{
    if s.len() > 0 && is_white_space(s[0]) {
        trim_start(s.drop_first())
    } else {
        s
    }
}

/// `s` without its trailing white space.
pub open spec fn trim_end(s: Seq<char>) -> Seq<char>
    decreases s.len(),
{
    if s.len() > 0 && is_white_space(s.last()) {
        trim_end(s.drop_last())
    } else {
        s
    }
}

/// `s` without leading and trailing white space (what `str::trim` returns).
pub open spec fn trim(s: Seq<char>) -> Seq<char> {
    trim_end(trim_start(s))
}

/// ASCII upper-case letters mapped to lower case; every other character unchanged.
pub open spec fn ascii_lower(c: char) -> char {
    if 'A' <= c && c <= 'Z' {
        ((c as u32) + 32) as char
    } else {
        c
    }
}

/// `s` with every ASCII upper-case letter mapped to lower case.
pub open spec fn ascii_lowercase(s: Seq<char>) -> Seq<char> {
    s.map_values(|c: char| ascii_lower(c))
}

/// `s` without every trailing `c`.
pub open spec fn trim_end_char(s: Seq<char>, c: char) -> Seq<char>
    decreases s.len(),
{
    if s.len() > 0 && s.last() == c {
        trim_end_char(s.drop_last(), c)
    } else {
        s
    }
}

/// The last index at which `c` occurs in `s`, if any.
pub open spec fn last_index_of(s: Seq<char>, c: char) -> Option<int>
    decreases s.len(),
{
    if s.len() == 0 {
        None
    } else if s.last() == c {
        Some(s.len() - 1)
    } else {
        last_index_of(s.drop_last(), c)
    }
}

pub fn is_whitespace_char(c: char) -> (r: bool)
    ensures
        r == is_white_space(c),
{
    ('\u{9}' <= c && c <= '\u{d}') || c == ' ' || c == '\u{85}' || c == '\u{a0}' || c
        == '\u{1680}' || ('\u{2000}' <= c && c <= '\u{200a}') || c == '\u{2028}' || c
        == '\u{2029}' || c == '\u{202f}' || c == '\u{205f}' || c == '\u{3000}'
}

pub fn ascii_lower_char(c: char) -> (r: char)
    ensures
        r == ascii_lower(c),
{
    if 'A' <= c && c <= 'Z' {
        let code: u32 = c as u32;
        let lowered: u32 = code + 32;
        proof {
            assert(97 <= lowered <= 122);
        }
        char_from_ascii(lowered)
    } else {
        c
    }
}

fn char_from_ascii(code: u32) -> (r: char)
    requires
        97 <= code <= 122,
    ensures
        r == code as char,
{
    let b: u8 = code as u8;
    b as char
}

/// Two strings hold the same characters.
pub fn str_eq(a: &str, b: &str) -> (r: bool)
    ensures
        r == (a@ == b@),
{
    let n = a.unicode_len();
    if n != b.unicode_len() {
        return false;
    }
    let mut i: usize = 0;
    while i < n
        invariant
            n == a@.len(),
            n == b@.len(),
            i <= n,
            forall|k: int| 0 <= k < i ==> a@[k] == b@[k],
        decreases n - i,
    {
        if a.get_char(i) != b.get_char(i) {
            return false;
        }
        i = i + 1;
    }
    assert(a@ =~= b@);
    true
}

/// `s` begins with `p`.
pub fn starts_with(s: &str, p: &str) -> (r: bool)
    ensures
        r == has_prefix(s@, p@),
{
    let n = s.unicode_len();
    let m = p.unicode_len();
    if m > n {
        return false;
    }
    let mut i: usize = 0;
    while i < m
        invariant
            n == s@.len(),
            m == p@.len(),
            m <= n,
            i <= m,
            forall|k: int| 0 <= k < i ==> s@[k] == p@[k],
        decreases m - i,
    {
        if s.get_char(i) != p.get_char(i) {
            assert(s@.subrange(0, m as int)[i as int] != p@[i as int]);
            return false;
        }
        i = i + 1;
    }
    assert(s@.subrange(0, m as int) =~= p@);
    true
}

/// `s` ends with `p`.
pub fn ends_with(s: &str, p: &str) -> (r: bool)
    ensures
        r == has_suffix(s@, p@),
{
    let n = s.unicode_len();
    let m = p.unicode_len();
    if m > n {
        return false;
    }
    let off: usize = n - m;
    let mut i: usize = 0;
    while i < m
        invariant
            n == s@.len(),
            m == p@.len(),
            off + m == n,
            i <= m,
            forall|k: int| 0 <= k < i ==> s@[off + k] == p@[k],
        decreases m - i,
    {
        if s.get_char(off + i) != p.get_char(i) {
            assert(s@.subrange(off as int, n as int)[i as int] != p@[i as int]);
            return false;
        }
        i = i + 1;
    }
    assert(s@.subrange(off as int, n as int) =~= p@);
    true
}

/// `needle` occurs in `s` at character position `at`.
fn matches_at(s: &str, needle: &str, at: usize) -> (r: bool)
    requires
        at + needle@.len() <= s@.len(),
    ensures
        r == occurs_at(s@, needle@, at as int),
{
    let n = s.unicode_len();
    let m = needle.unicode_len();
    let mut i: usize = 0;
    while i < m
        invariant
            m == needle@.len(),
            n == s@.len(),
            at + m <= n,
            i <= m,
            forall|k: int| 0 <= k < i ==> s@[at + k] == needle@[k],
        decreases m - i,
    {
        if s.get_char(at + i) != needle.get_char(i) {
            assert(s@.subrange(at as int, at + m)[i as int] != needle@[i as int]);
            return false;
        }
        i = i + 1;
    }
    assert(s@.subrange(at as int, at + m) =~= needle@);
    true
}

/// `needle` occurs somewhere in `s` (what `str::contains` answers for a string pattern).
pub fn contains_str(s: &str, needle: &str) -> (r: bool)
    ensures
        r == has_substring(s@, needle@),
{
    let n = s.unicode_len();
    let m = needle.unicode_len();
    if m > n {
        assert forall|i: int| !occurs_at(s@, needle@, i) by {}
        return false;
    }
    let last: usize = n - m;
    let mut at: usize = 0;
    while at < last
        invariant
            n == s@.len(),
            m == needle@.len(),
            last == n - m,
            at <= last,
            forall|i: int| 0 <= i < at ==> !occurs_at(s@, needle@, i),
        decreases last - at,
    {
        if matches_at(s, needle, at) {
            return true;
        }
        at = at + 1;
    }
    if matches_at(s, needle, last) {
        return true;
    }
    assert forall|i: int| !occurs_at(s@, needle@, i) by {
        if 0 <= i < at {
        }
    }
    false
}

/// `c` occurs in `s`.
pub fn contains_char(s: &str, c: char) -> (r: bool)
    ensures
        r == s@.contains(c),
{
    let n = s.unicode_len();
    let mut i: usize = 0;
    while i < n
        invariant
            n == s@.len(),
            i <= n,
            forall|k: int| 0 <= k < i ==> s@[k] != c,
        decreases n - i,
    {
        if s.get_char(i) == c {
            return true;
        }
        i = i + 1;
    }
    false
}

proof fn lemma_trim_start_skip(s: Seq<char>, i: int)
    requires
        0 <= i <= s.len(),
        forall|k: int| 0 <= k < i ==> is_white_space(#[trigger] s[k]),
        i == s.len() || !is_white_space(s[i]),
    ensures
        trim_start(s) == s.subrange(i, s.len() as int),
    decreases i,
{
    if i == 0 {
        assert(s.subrange(0, s.len() as int) =~= s);
    } else {
        let t = s.drop_first();
        assert forall|k: int| 0 <= k < i - 1 implies is_white_space(#[trigger] t[k]) by {
            assert(t[k] == s[k + 1]);
        }
        lemma_trim_start_skip(t, i - 1);
        assert(t.subrange(i - 1, t.len() as int) =~= s.subrange(i, s.len() as int));
    }
}

proof fn lemma_trim_end_take(s: Seq<char>, j: int)
    requires
        0 <= j <= s.len(),
        forall|k: int| j <= k < s.len() ==> is_white_space(#[trigger] s[k]),
        j == 0 || !is_white_space(s[j - 1]),
    ensures
        trim_end(s) == s.subrange(0, j),
    decreases s.len() - j,
{
    if j == s.len() {
        assert(s.subrange(0, j) =~= s);
    } else {
        let t = s.drop_last();
        assert forall|k: int| j <= k < t.len() implies is_white_space(#[trigger] t[k]) by {
            assert(t[k] == s[k]);
        }
        lemma_trim_end_take(t, j);
        assert(t.subrange(0, j) =~= s.subrange(0, j));
    }
}

/// `s` without leading and trailing white space.
pub fn trim_str(s: &str) -> (r: &str)
    ensures
        r@ == trim(s@),
{
    let n = s.unicode_len();
    let mut i: usize = 0;
    while i < n && is_whitespace_char(s.get_char(i))
        invariant
            n == s@.len(),
            i <= n,
            forall|k: int| 0 <= k < i ==> is_white_space(#[trigger] s@[k]),
        decreases n - i,
    {
        i = i + 1;
    }
    proof {
        lemma_trim_start_skip(s@, i as int);
    }
    let ghost t = s@.subrange(i as int, n as int);
    let mut j: usize = n;
    while j > i && is_whitespace_char(s.get_char(j - 1))
        invariant
            n == s@.len(),
            i <= j <= n,
            t == s@.subrange(i as int, n as int),
            forall|k: int| j <= k < n ==> is_white_space(#[trigger] s@[k]),
        decreases j - i,
    {
        j = j - 1;
    }
    proof {
        assert forall|k: int| (j - i) <= k < t.len() implies is_white_space(#[trigger] t[k]) by {
            assert(t[k] == s@[i + k]);
        }
        if j > i {
            assert(t[j - i - 1] == s@[j - 1]);
        }
        lemma_trim_end_take(t, (j - i) as int);
        assert(t.subrange(0, (j - i) as int) =~= s@.subrange(i as int, j as int));
    }
    s.substring_char(i, j)
}

proof fn lemma_lower_occurs(s: Seq<char>, q: Seq<char>, at: int)
    requires
        0 <= at,
        at + q.len() <= s.len(),
        forall|k: int| 0 <= k < q.len() ==> ascii_lower(#[trigger] s[at + k]) == ascii_lower(q[k]),
    ensures
        occurs_at(ascii_lowercase(s), ascii_lowercase(q), at),
{
    let ls = ascii_lowercase(s);
    let lq = ascii_lowercase(q);
    assert forall|k: int| 0 <= k < q.len() implies #[trigger] ls.subrange(at, at + q.len())[k] == lq[k] by {
        assert(ls[at + k] == ascii_lower(s[at + k]));
        assert(lq[k] == ascii_lower(q[k]));
    }
    assert(ls.subrange(at, at + q.len()) =~= lq);
}

/// `q` occurs in `s` when both are compared with ASCII letters folded to lower case.
pub fn contains_ignore_ascii_case(s: &str, q: &str) -> (r: bool)
    ensures
        r == has_substring(ascii_lowercase(s@), ascii_lowercase(q@)),
{
    let n = s.unicode_len();
    let m = q.unicode_len();
    let ghost ls = ascii_lowercase(s@);
    let ghost lq = ascii_lowercase(q@);
    if m > n {
        assert forall|i: int| !occurs_at(ls, lq, i) by {}
        return false;
    }
    let last: usize = n - m;
    let mut at: usize = 0;
    loop
        invariant
            n == s@.len(),
            m == q@.len(),
            last == n - m,
            ls == ascii_lowercase(s@),
            lq == ascii_lowercase(q@),
            at <= last,
            forall|i: int| 0 <= i < at ==> !occurs_at(ls, lq, i),
        decreases last - at,
    {
        let mut i: usize = 0;
        while i < m && ascii_lower_char(s.get_char(at + i)) == ascii_lower_char(q.get_char(i))
            invariant
                n == s@.len(),
                m == q@.len(),
                at + m <= n,
                i <= m,
                forall|k: int| 0 <= k < i ==> ascii_lower(#[trigger] s@[at + k]) == ascii_lower(q@[k]),
            decreases m - i,
        {
            i = i + 1;
        }
        if i == m {
            proof {
                lemma_lower_occurs(s@, q@, at as int);
            }
            return true;
        }
        proof {
            assert(ls.subrange(at as int, at + m)[i as int] != lq[i as int]);
        }
        if at == last {
            assert forall|j: int| !occurs_at(ls, lq, j) by {
                if 0 <= j <= at {
                }
            }
            return false;
        }
        at = at + 1;
    }
}

proof fn lemma_trim_end_char_take(s: Seq<char>, c: char, j: int)
    requires
        0 <= j <= s.len(),
        forall|k: int| j <= k < s.len() ==> #[trigger] s[k] == c,
        j == 0 || s[j - 1] != c,
    ensures
        trim_end_char(s, c) == s.subrange(0, j),
    decreases s.len() - j,
{
    if j == s.len() {
        assert(s.subrange(0, j) =~= s);
    } else {
        let t = s.drop_last();
        assert forall|k: int| j <= k < t.len() implies #[trigger] t[k] == c by {
            assert(t[k] == s[k]);
        }
        lemma_trim_end_char_take(t, c, j);
        assert(t.subrange(0, j) =~= s.subrange(0, j));
    }
}

proof fn lemma_last_index_of(s: Seq<char>, c: char, k: int)
    requires
        -1 <= k < s.len(),
        forall|m: int| k < m < s.len() ==> #[trigger] s[m] != c,
        k >= 0 ==> s[k] == c,
    ensures
        last_index_of(s, c) == (if k >= 0 { Some(k) } else { None::<int> }),
    decreases s.len() - k,
{
    if s.len() == 0 {
    } else if k == s.len() - 1 {
    } else {
        let t = s.drop_last();
        assert forall|m: int| k < m < t.len() implies #[trigger] t[m] != c by {
            assert(t[m] == s[m]);
        }
        lemma_last_index_of(t, c, k);
    }
}

/// The number of characters of `s` that remain once every trailing `c` is removed.
pub fn trimmed_end_len(s: &str, c: char) -> (j: usize)
    ensures
        j <= s@.len(),
        trim_end_char(s@, c) == s@.subrange(0, j as int),
{
    let n = s.unicode_len();
    let mut j: usize = n;
    while j > 0 && s.get_char(j - 1) == c
        invariant
            n == s@.len(),
            j <= n,
            forall|k: int| j <= k < n ==> #[trigger] s@[k] == c,
        decreases j,
    {
        j = j - 1;
    }
    proof {
        lemma_trim_end_char_take(s@, c, j as int);
    }
    j
}

/// The last position before `end` at which `c` occurs in `s`.
pub fn rfind_char(s: &str, end: usize, c: char) -> (r: Option<usize>)
    requires
        end <= s@.len(),
    ensures
        r matches Some(i) ==> i < end,
        r == (match last_index_of(s@.subrange(0, end as int), c) {
            Some(i) => Some(i as usize),
            None => None::<usize>,
        }),
{
    let ghost t = s@.subrange(0, end as int);
    let mut k: usize = end;
    while k > 0 && s.get_char(k - 1) != c
        invariant
            end <= s@.len(),
            t == s@.subrange(0, end as int),
            k <= end,
            forall|m: int| k <= m < end ==> #[trigger] s@[m] != c,
        decreases k,
    {
        k = k - 1;
    }
    proof {
        assert forall|m: int| k - 1 < m < t.len() implies #[trigger] t[m] != c by {
            assert(t[m] == s@[m]);
        }
        if k > 0 {
            assert(t[k - 1] == s@[k - 1]);
        }
        lemma_last_index_of(t, c, k - 1);
    }
    if k == 0 {
        None
    } else {
        Some(k - 1)
    }
}

/// `s` and `lower` are equal once their ASCII letters are folded to lower case.
pub fn eq_ascii_lower(s: &str, lower: &str) -> (r: bool)
    ensures
        r == (ascii_lowercase(s@) == ascii_lowercase(lower@)),
{
    let n = s.unicode_len();
    if n != lower.unicode_len() {
        assert(ascii_lowercase(s@).len() != ascii_lowercase(lower@).len());
        return false;
    }
    let mut i: usize = 0;
    while i < n
        invariant
            n == s@.len(),
            n == lower@.len(),
            i <= n,
            forall|k: int| 0 <= k < i ==> ascii_lowercase(s@)[k] == ascii_lowercase(lower@)[k],
        decreases n - i,
    {
        if ascii_lower_char(s.get_char(i)) != ascii_lower_char(lower.get_char(i)) {
            assert(ascii_lowercase(s@)[i as int] != ascii_lowercase(lower@)[i as int]);
            return false;
        }
        i = i + 1;
    }
    assert(ascii_lowercase(s@) =~= ascii_lowercase(lower@));
    true
}

/// Filtering a sequence with one more element at its end filters that element last.
pub proof fn lemma_filter_push<A>(s: Seq<A>, p: spec_fn(A) -> bool, x: A)
    ensures
        s.push(x).filter(p) == (if p(x) {
            s.filter(p).push(x)
        } else {
            s.filter(p)
        }),
{
    reveal(Seq::filter);
    assert(s.push(x).drop_last() =~= s);
    assert(s.push(x).last() == x);
}

} // verus!
