use vstd::multiset::Multiset;
use vstd::prelude::*;

verus! {

/// Lexicographic order of `a` and `b` from position `i` on, by code point.
pub open spec fn le_from(a: Seq<char>, b: Seq<char>, i: int) -> bool
    decreases a.len() - i,
{
    if i >= a.len() {
        true
    } else if i >= b.len() {
        false
    } else if a[i] != b[i] {
        a[i] < b[i]
    } else {
        le_from(a, b, i + 1)
    }
}

/// `a` comes no later than `b` in the order of `str` (code point by code point,
/// which is the byte order of their UTF-8 forms).
pub open spec fn key_le(a: Seq<char>, b: Seq<char>) -> bool {
    le_from(a, b, 0)
}

proof fn lemma_le_from_total(a: Seq<char>, b: Seq<char>, i: int)
    requires
        0 <= i,
    ensures
        le_from(a, b, i) || le_from(b, a, i),
    decreases a.len() - i,
{
    if i < a.len() && i < b.len() && a[i] == b[i] {
        lemma_le_from_total(a, b, i + 1);
    }
}

proof fn lemma_le_from_trans(a: Seq<char>, b: Seq<char>, c: Seq<char>, i: int)
    requires
        0 <= i,
        le_from(a, b, i),
        le_from(b, c, i),
    ensures
        le_from(a, c, i),
    decreases a.len() - i,
{
    if i < a.len() && i < b.len() && i < c.len() && a[i] == b[i] && b[i] == c[i] {
        lemma_le_from_trans(a, b, c, i + 1);
    }
}

/// Any two strings are ordered one way or the other.
pub proof fn lemma_key_le_total(a: Seq<char>, b: Seq<char>)
    ensures
        key_le(a, b) || key_le(b, a),
{
    lemma_le_from_total(a, b, 0);
}

/// The order is transitive.
pub proof fn lemma_key_le_trans(a: Seq<char>, b: Seq<char>, c: Seq<char>)
    requires
        key_le(a, b),
        key_le(b, c),
    ensures
        key_le(a, c),
{
    lemma_le_from_trans(a, b, c, 0);
}

/// Whether `a` comes no later than `b`.
pub fn str_le(a: &str, b: &str) -> (r: bool)
    ensures
        r == key_le(a@, b@),
{
    let n = a.unicode_len();
    let m = b.unicode_len();
    let mut i: usize = 0;
    while i < n && i < m
        invariant
            n == a@.len(),
            m == b@.len(),
            i <= n,
            i <= m,
            key_le(a@, b@) == le_from(a@, b@, i as int),
        decreases n - i,
    {
        let ca = a.get_char(i);
        let cb = b.get_char(i);
        if ca != cb {
            return ca < cb;
        }
        i = i + 1;
    }
    i == n
}

/// A value ordered by a string key.
pub trait Keyed {
    spec fn sort_key(&self) -> Seq<char>;

    fn key_str(&self) -> (r: &str)
        ensures
            r@ == self.sort_key();
}

/// Every item's key comes no later than the keys after it.
pub open spec fn sorted_by_key<T: Keyed>(s: Seq<T>) -> bool {
    forall|i: int, j: int| 0 <= i < j < s.len() ==> key_le(#[trigger] s[i].sort_key(), #[trigger] s[j].sort_key())
}

/// The same items, in ascending order of their keys.
pub fn sort_by_key<T: Keyed>(items: Vec<T>) -> (r: Vec<T>)
    ensures
        sorted_by_key(r@),
        r@.to_multiset() == items@.to_multiset(),
{
    broadcast use vstd::seq_lib::group_to_multiset_ensures;

    let mut rest = items;
    let mut out: Vec<T> = Vec::new();
    while rest.len() > 0
        invariant
            sorted_by_key(out@),
            out@.to_multiset().add(rest@.to_multiset()) == items@.to_multiset(),
        decreases rest@.len(),
    {
        let ghost before = rest@;
        let x = rest.pop().unwrap();
        assert(before == rest@.push(x));
        let mut p: usize = 0;
        while p < out.len() && str_le(out[p].key_str(), x.key_str())
            invariant
                p <= out@.len(),
                forall|j: int| 0 <= j < p ==> key_le(#[trigger] out@[j].sort_key(), x.sort_key()),
            decreases out@.len() - p,
        {
            p = p + 1;
        }
        let ghost prev = out@;
        if p < out.len() {
            proof {
                lemma_key_le_total(prev[p as int].sort_key(), x.sort_key());
            }
        }
        out.insert(p, x);
        proof {
            vstd::seq_lib::to_multiset_insert(prev, p as int, x);
            assert forall|i: int, j: int| 0 <= i < j < out@.len() implies key_le(
                #[trigger] out@[i].sort_key(),
                #[trigger] out@[j].sort_key(),
            ) by {
                if j < p {
                    assert(out@[i] == prev[i] && out@[j] == prev[j]);
                } else if j == p {
                    assert(out@[i] == prev[i]);
                } else if i == p {
                    assert(out@[j] == prev[j - 1]);
                    if j - 1 > p {
                        lemma_key_le_trans(x.sort_key(), prev[p as int].sort_key(), prev[j - 1].sort_key());
                    }
                } else if i < p {
                    assert(out@[i] == prev[i] && out@[j] == prev[j - 1]);
                } else {
                    assert(out@[i] == prev[i - 1] && out@[j] == prev[j - 1]);
                }
            }
            vstd::seq_lib::to_multiset_build(rest@, x);
            assert(before.to_multiset() =~= rest@.to_multiset().insert(x));
            assert(out@.to_multiset() =~= prev.to_multiset().insert(x));
            assert(out@.to_multiset().add(rest@.to_multiset()) =~= prev.to_multiset().add(before.to_multiset()));
        }
    }
    assert(rest@ =~= Seq::<T>::empty());
    assert(rest@.to_multiset().len() == 0);
    assert(rest@.to_multiset() =~= Multiset::<T>::empty());
    assert(out@.to_multiset() =~= items@.to_multiset());
    out
}

} // verus!
