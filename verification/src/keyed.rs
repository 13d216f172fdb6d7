//! Small association lists keyed by path or name: the first entry with a key is the one that
//! counts.
use vstd::prelude::*;
use crate::text::str_eq;

verus! {

/// The value of the first entry of `s` whose key is `key`.
pub open spec fn lookup<V>(s: Seq<(String, V)>, key: Seq<char>) -> Option<V>
    decreases s.len(),
{
    if s.len() == 0 {
        None
    } else if s[0].0@ == key {
        Some(s[0].1)
    } else {
        lookup(s.drop_first(), key)
    }
}

/// The entry at `i` is the first with its key, so a lookup finds it.
pub proof fn lemma_lookup_at<V>(s: Seq<(String, V)>, i: int, key: Seq<char>)
    requires
        0 <= i < s.len(),
        s[i].0@ == key,
        forall|k: int| 0 <= k < i ==> (#[trigger] s[k]).0@ != key,
    ensures
        lookup(s, key) == Some(s[i].1),
    decreases i,
{
    if i > 0 {
        let t = s.drop_first();
        assert forall|k: int| 0 <= k < i - 1 implies (#[trigger] t[k]).0@ != key by {
            assert(t[k] == s[k + 1]);
        }
        lemma_lookup_at(t, i - 1, key);
    }
}

/// No entry has the key, so a lookup finds nothing.
pub proof fn lemma_lookup_absent<V>(s: Seq<(String, V)>, key: Seq<char>)
    requires
        forall|k: int| 0 <= k < s.len() ==> (#[trigger] s[k]).0@ != key,
    ensures
        lookup(s, key) is None,
    decreases s.len(),
{
    if s.len() > 0 {
        let t = s.drop_first();
        assert forall|k: int| 0 <= k < t.len() implies (#[trigger] t[k]).0@ != key by {
            assert(t[k] == s[k + 1]);
        }
        lemma_lookup_absent(t, key);
    }
}

/// Replacing the first entry of a key gives that key the new value and leaves other keys as
/// they were.
pub proof fn lemma_lookup_set<V>(s: Seq<(String, V)>, i: int, entry: (String, V))
    requires
        0 <= i < s.len(),
        s[i].0@ == entry.0@,
        forall|k: int| 0 <= k < i ==> (#[trigger] s[k]).0@ != entry.0@,
    ensures
        lookup(s.update(i, entry), entry.0@) == Some(entry.1),
        forall|q: Seq<char>| q != entry.0@ ==> lookup(s.update(i, entry), q) == lookup(s, q),
    decreases i,
{
    let u = s.update(i, entry);
    if i > 0 {
        let t = s.drop_first();
        assert forall|k: int| 0 <= k < i - 1 implies (#[trigger] t[k]).0@ != entry.0@ by {
            assert(t[k] == s[k + 1]);
        }
        lemma_lookup_set(t, i - 1, entry);
        assert(u.drop_first() =~= t.update(i - 1, entry));
        assert(u[0] == s[0]);
        assert forall|q: Seq<char>| q != entry.0@ implies lookup(u, q) == lookup(s, q) by {
            if s[0].0@ != q {
                assert(lookup(u, q) == lookup(u.drop_first(), q));
                assert(lookup(t.update(i - 1, entry), q) == lookup(t, q));
                assert(lookup(s, q) == lookup(t, q));
            } else {
                assert(lookup(u, q) == Some(u[0].1));
                assert(lookup(s, q) == Some(s[0].1));
            }
        }
    } else {
        assert(u.drop_first() =~= s.drop_first());
        assert(u[0] == entry);
    }
}

/// Appending an entry of a new key gives that key its value and leaves other keys as they
/// were.
pub proof fn lemma_lookup_push<V>(s: Seq<(String, V)>, entry: (String, V))
    requires
        forall|k: int| 0 <= k < s.len() ==> (#[trigger] s[k]).0@ != entry.0@,
    ensures
        lookup(s.push(entry), entry.0@) == Some(entry.1),
        forall|q: Seq<char>| q != entry.0@ ==> lookup(s.push(entry), q) == lookup(s, q),
{
    let p = s.push(entry);
    assert forall|k: int| 0 <= k < s.len() implies (#[trigger] p[k]).0@ != entry.0@ by {
        assert(p[k] == s[k]);
    }
    lemma_lookup_at(p, s.len() as int, entry.0@);
    assert forall|q: Seq<char>| q != entry.0@ implies lookup(p, q) == lookup(s, q) by {
        lemma_lookup_push_other(s, entry, q);
    }
}

proof fn lemma_lookup_push_other<V>(s: Seq<(String, V)>, entry: (String, V), q: Seq<char>)
    requires
        q != entry.0@,
    ensures
        lookup(s.push(entry), q) == lookup(s, q),
    decreases s.len(),
{
    let p = s.push(entry);
    if s.len() == 0 {
        assert(p.drop_first() =~= Seq::<(String, V)>::empty());
        assert(p[0] == entry);
    } else {
        assert(p.drop_first() =~= s.drop_first().push(entry));
        assert(p[0] == s[0]);
        lemma_lookup_push_other(s.drop_first(), entry, q);
    }
}

/// The position of the first entry whose key is `key`, if any.
pub fn position_of_key<V>(v: &Vec<(String, V)>, key: &str) -> (r: Option<usize>)
    ensures
        match r {
            Some(i) => i < v@.len() && v@[i as int].0@ == key@ && (forall|k: int|
                0 <= k < i ==> (#[trigger] v@[k]).0@ != key@) && lookup(v@, key@) == Some(
                v@[i as int].1,
            ),
            None => (forall|k: int| 0 <= k < v@.len() ==> (#[trigger] v@[k]).0@ != key@)
                && lookup(v@, key@) is None,
        },
{
    let n = v.len();
    let mut i: usize = 0;
    while i < n
        invariant
            n == v@.len(),
            i <= n,
            forall|k: int| 0 <= k < i ==> (#[trigger] v@[k]).0@ != key@,
        decreases n - i,
    {
        if str_eq(v[i].0.as_str(), key) {
            proof {
                lemma_lookup_at(v@, i as int, key@);
            }
            return Some(i);
        }
        i = i + 1;
    }
    proof {
        lemma_lookup_absent(v@, key@);
    }
    None
}

} // verus!
