//! Prim paths: parents, ancestry, and the paths a move produces.
use vstd::prelude::*;
use crate::text::{has_prefix, last_index_of, rfind_char, starts_with, trim_end_char, trimmed_end_len};

verus! {

/// The parent of a prim path: `None` for the empty path and for `/`; otherwise the path with
/// its trailing `/`s removed, cut before its last `/` (and `/` itself where that `/` comes
/// first). A path without any `/` other than trailing ones has no parent.
pub open spec fn parent_path(p: Seq<char>) -> Option<Seq<char>> {
    if p.len() == 0 || p == seq!['/'] {
        None
    } else {
        let t = trim_end_char(p, '/');
        match last_index_of(t, '/') {
            None => None,
            Some(i) => if i == 0 {
                Some(seq!['/'])
            } else {
                Some(t.subrange(0, i))
            },
        }
    }
}

/// `a` is a strict ancestor path of `p`: `p` is `a` followed by `/` and more.
pub open spec fn is_ancestor_path(a: Seq<char>, p: Seq<char>) -> bool {
    has_prefix(p, a) && a.len() < p.len() && p[a.len() as int] == '/'
}

pub proof fn lemma_trim_end_char_len(s: Seq<char>, c: char)
    ensures
        trim_end_char(s, c).len() <= s.len(),
        trim_end_char(s, c) == s.subrange(0, trim_end_char(s, c).len() as int),
    decreases s.len(),
{
    if s.len() > 0 && s.last() == c {
        lemma_trim_end_char_len(s.drop_last(), c);
        let t = trim_end_char(s.drop_last(), c);
        assert(s.drop_last().subrange(0, t.len() as int) =~= s.subrange(0, t.len() as int));
    } else {
        assert(s.subrange(0, s.len() as int) =~= s);
    }
}

pub proof fn lemma_last_index_bound(s: Seq<char>, c: char)
    ensures
        last_index_of(s, c) matches Some(i) ==> 0 <= i < s.len() && s[i] == c,
    decreases s.len(),
{
    if s.len() > 0 && s.last() != c {
        lemma_last_index_bound(s.drop_last(), c);
    }
}

/// A parent path is strictly shorter than the path it comes from.
pub proof fn lemma_parent_shorter(p: Seq<char>)
    ensures
        parent_path(p) matches Some(q) ==> q.len() < p.len(),
{
    if !(p.len() == 0 || p == seq!['/']) {
        let t = trim_end_char(p, '/');
        lemma_trim_end_char_len(p, '/');
        lemma_last_index_bound(t, '/');
        if let Some(i) = last_index_of(t, '/') {
            if i == 0 {
                if p.len() == 1 {
                    assert(p[0] == '/');
                    assert(p =~= seq!['/']);
                }
            }
        }
    }
}

/// Every path that has a parent is a descendant of that parent: the parent of `p`, followed
/// by `/`, starts `p` (or the parent is `/`).
pub proof fn lemma_parent_is_ancestor(p: Seq<char>)
    ensures
        parent_path(p) matches Some(q) ==> q == seq!['/'] || is_ancestor_path(q, p),
{
    if !(p.len() == 0 || p == seq!['/']) {
        let t = trim_end_char(p, '/');
        lemma_trim_end_char_len(p, '/');
        lemma_last_index_bound(t, '/');
        if let Some(i) = last_index_of(t, '/') {
            if i != 0 {
                let q = t.subrange(0, i);
                assert(p.subrange(0, i) =~= q);
                assert(p[i] == t[i]);
            }
        }
    }
}

/// The parent path of `path` (see `parent_path`).
pub fn parent_prim_path(path: &str) -> (r: Option<String>)
    ensures
        r matches Some(q) ==> parent_path(path@) == Some(q@),
        r is None ==> parent_path(path@) is None,
{
    let n = path.unicode_len();
    if n == 0 {
        return None;
    }
    if n == 1 && path.get_char(0) == '/' {
        assert(path@ =~= seq!['/']);
        return None;
    }
    assert(path@ != seq!['/']) by {
        if path@ == seq!['/'] {
            assert(path@[0] == '/');
        }
    }
    let j = trimmed_end_len(path, '/');
    let ghost t = trim_end_char(path@, '/');
    assert(t == path@.subrange(0, j as int));
    let found = rfind_char(path, j, '/');
    proof {
        lemma_last_index_bound(t, '/');
        match last_index_of(t, '/') {
            Some(i) => {
                assert(found == Some(i as usize));
            },
            None => {
                assert(found is None);
            },
        }
    }
    match found {
        None => None,
        Some(idx) => {
            if idx == 0 {
                let root = String::from_str("/");
                proof {
                    reveal_strlit("/");
                    assert(root@ =~= seq!['/']);
                }
                Some(root)
            } else {
                let head = path.substring_char(0, idx);
                proof {
                    assert(path@.subrange(0, j as int).subrange(0, idx as int) =~= path@.subrange(
                        0,
                        idx as int,
                    ));
                }
                Some(String::from_str(head))
            }
        },
    }
}

/// `ancestor` is a strict ancestor path of `path`: `path` is `ancestor`, then `/`, then more.
pub fn is_ancestor_of(ancestor: &str, path: &str) -> (r: bool)
    ensures
        r == is_ancestor_path(ancestor@, path@),
{
    if !starts_with(path, ancestor) {
        return false;
    }
    let m = ancestor.unicode_len();
    let n = path.unicode_len();
    m < n && path.get_char(m) == '/'
}

} // verus!
