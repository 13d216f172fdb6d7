//! Which attribute texts are decimal floating-point literals, by the grammar that the standard
//! library documents for parsing `f64`:
//!
//! ```text
//! Float  ::= Sign? ( 'inf' | 'infinity' | 'nan' | Number )
//! Number ::= ( Digit+ | Digit+ '.' Digit* | Digit* '.' Digit+ ) Exp?
//! Exp    ::= 'e' Sign? Digit+
//! Sign   ::= [+-]
//! Digit  ::= [0-9]
//! ```
//!
//! matched after ASCII letters are folded to lower case.
use vstd::prelude::*;
use crate::text::{ascii_lowercase, eq_ascii_lower};

verus! {

pub open spec fn is_digit(c: char) -> bool {
    '0' <= c && c <= '9'
}

pub open spec fn is_sign(c: char) -> bool {
    c == '+' || c == '-'
}

/// `s` without one leading sign.
pub open spec fn strip_sign(s: Seq<char>) -> Seq<char> {
    if s.len() > 0 && is_sign(s[0]) {
        s.drop_first()
    } else {
        s
    }
}

/// The length of the longest prefix of `s` made of digits and dots.
pub open spec fn mantissa_len(s: Seq<char>) -> nat
    decreases s.len(),
{
    if s.len() > 0 && (is_digit(s[0]) || s[0] == '.') {
        1 + mantissa_len(s.drop_first())
    } else {
        0
    }
}

/// Digits with at most one dot and at least one digit: `Digit+`, `Digit+ '.' Digit*` or
/// `Digit* '.' Digit+` (for a string of digits and dots).
pub open spec fn valid_mantissa(m: Seq<char>) -> bool {
    &&& m.filter(|c: char| c == '.').len() <= 1
    &&& exists|k: int| 0 <= k < m.len() && is_digit(m[k])
}

/// One or more digits, after at most one sign.
pub open spec fn signed_digits(y: Seq<char>) -> bool {
    let z = strip_sign(y);
    z.len() > 0 && forall|k: int| 0 <= k < z.len() ==> is_digit(#[trigger] z[k])
}

/// Nothing, or `e`/`E` followed by a signed run of digits.
pub open spec fn valid_exponent(x: Seq<char>) -> bool {
    x.len() == 0 || ((x[0] == 'e' || x[0] == 'E') && signed_digits(x.drop_first()))
}

/// The text is a floating-point literal: an optional sign, then `inf`, `infinity` or `nan` in
/// any case, or a mantissa followed by an optional exponent.
pub open spec fn is_float_text(s: Seq<char>) -> bool {
    let t = strip_sign(s);
    let l = ascii_lowercase(t);
    ||| l == "inf"@
    ||| l == "infinity"@
    ||| l == "nan"@
    ||| (valid_mantissa(t.take(mantissa_len(t) as int)) && valid_exponent(t.skip(mantissa_len(t) as int)))
}

proof fn lemma_mantissa_len_skip(s: Seq<char>, i: int)
    requires
        0 <= i <= s.len(),
        forall|k: int| 0 <= k < i ==> (is_digit(#[trigger] s[k]) || s[k] == '.'),
    ensures
        mantissa_len(s) == i + mantissa_len(s.skip(i)),
    decreases i,
{
    if i > 0 {
        let t = s.drop_first();
        assert forall|k: int| 0 <= k < i - 1 implies (is_digit(#[trigger] t[k]) || t[k] == '.') by {
            assert(t[k] == s[k + 1]);
        }
        lemma_mantissa_len_skip(t, i - 1);
        assert(t.skip(i - 1) =~= s.skip(i));
    } else {
        assert(s.skip(0) =~= s);
    }
}

/// Whether the text is a floating-point literal (see `is_float_text`).
pub fn is_float_literal(s: &str) -> (r: bool)
    ensures
        r == is_float_text(s@),
{
    let n = s.unicode_len();
    let start: usize = if n > 0 && (s.get_char(0) == '+' || s.get_char(0) == '-') {
        1
    } else {
        0
    };
    let t = s.substring_char(start, n);
    proof {
        if start == 1 {
            assert(s@.subrange(1, n as int) =~= s@.drop_first());
        } else {
            assert(s@.subrange(0, n as int) =~= s@);
        }
        assert(t@ == strip_sign(s@));
        reveal_strlit("inf");
        reveal_strlit("infinity");
        reveal_strlit("nan");
        assert(ascii_lowercase("inf"@) =~= "inf"@);
        assert(ascii_lowercase("infinity"@) =~= "infinity"@);
        assert(ascii_lowercase("nan"@) =~= "nan"@);
    }
    if eq_ascii_lower(t, "inf") || eq_ascii_lower(t, "infinity") || eq_ascii_lower(t, "nan") {
        return true;
    }
    let m = t.unicode_len();
    let mut i: usize = 0;
    let mut dots: usize = 0;
    let mut digits: usize = 0;
    while i < m && (('0' <= t.get_char(i) && t.get_char(i) <= '9') || t.get_char(i) == '.')
        invariant
            m == t@.len(),
            i <= m,
            forall|k: int| 0 <= k < i ==> (is_digit(#[trigger] t@[k]) || t@[k] == '.'),
            dots == t@.take(i as int).filter(|c: char| c == '.').len(),
            digits > 0 <==> exists|k: int| 0 <= k < i && is_digit(t@[k]),
            digits <= i,
        decreases m - i,
    {
        let c = t.get_char(i);
        proof {
            assert(t@.take(i + 1) =~= t@.take(i as int).push(c));
            crate::text::lemma_filter_push(t@.take(i as int), |c: char| c == '.', c);
        }
        if c == '.' {
            dots = dots + 1;
        } else {
            digits = digits + 1;
        }
        i = i + 1;
    }
    proof {
        lemma_mantissa_len_skip(t@, i as int);
        if i < m {
            assert(t@.skip(i as int)[0] == t@[i as int]);
        }
        assert(mantissa_len(t@.skip(i as int)) == 0);
        let mm = t@.take(i as int);
        assert forall|k: int| 0 <= k < mm.len() implies mm[k] == t@[k] by {}
        if digits > 0 {
            let k = choose|k: int| 0 <= k < i && is_digit(t@[k]);
            assert(mm[k] == t@[k]);
        }
        if exists|k: int| 0 <= k < mm.len() && is_digit(mm[k]) {
            let k = choose|k: int| 0 <= k < mm.len() && is_digit(mm[k]);
            assert(mm[k] == t@[k]);
        }
        assert(valid_mantissa(mm) == (dots <= 1 && digits > 0));
        assert(t@.skip(m as int).len() == 0);
    }
    if dots > 1 || digits == 0 {
        return false;
    }
    if i == m {
        return true;
    }
    let e = t.get_char(i);
    if e != 'e' && e != 'E' {
        proof {
            assert(t@.skip(i as int)[0] == e);
        }
        return false;
    }
    let mut j: usize = i + 1;
    if j < m && (t.get_char(j) == '+' || t.get_char(j) == '-') {
        j = j + 1;
    }
    let first_digit = j;
    let ghost x = t@.skip(i as int);
    let ghost y = x.drop_first();
    let ghost z = strip_sign(y);
    proof {
        assert(x[0] == e);
        assert(y =~= t@.subrange(i + 1, m as int));
        if first_digit == i + 2 {
            assert(y[0] == t@[i + 1]);
            assert(z =~= t@.subrange(first_digit as int, m as int));
        } else {
            if y.len() > 0 {
                assert(y[0] == t@[i + 1]);
            }
            assert(z =~= t@.subrange(first_digit as int, m as int));
        }
    }
    if first_digit == m {
        return false;
    }
    while j < m && '0' <= t.get_char(j) && t.get_char(j) <= '9'
        invariant
            m == t@.len(),
            first_digit <= j <= m,
            forall|k: int| first_digit <= k < j ==> is_digit(#[trigger] t@[k]),
        decreases m - j,
    {
        j = j + 1;
    }
    proof {
        assert forall|k: int| 0 <= k < z.len() && j == m implies is_digit(#[trigger] z[k]) by {
            assert(z[k] == t@[first_digit + k]);
        }
        if j < m {
            assert(z[j - first_digit] == t@[j as int]);
        }
        assert(valid_exponent(x) == (j == m));
    }
    j == m
}

} // verus!
