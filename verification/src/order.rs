//! Lists kept in ascending order of a key, without duplicates: the shape of
//! every listing that the catalog hands out.

use crate::text::{
    lemma_lex_asymmetric, lemma_lex_total, lemma_lex_transitive, lex_lt, views, Rank,
};
use vstd::prelude::*;

verus! {

/// What a listing is ordered by: a name first, then an optional second
/// name, then a number.
pub struct Key {
    pub major: Seq<char>,
    pub minor: Option<Seq<char>>,
    pub serial: int,
}

/// The order of optional names: none before any, names in code-point order.
pub open spec fn opt_lt(a: Option<Seq<char>>, b: Option<Seq<char>>) -> bool {
    match (a, b) {
        (None, Some(_)) => true,
        (Some(x), Some(y)) => lex_lt(x, y),
        _ => false,
    }
}

/// The order of keys: by `major`, then by `minor`, then by `serial`.
pub open spec fn key_lt(a: Key, b: Key) -> bool {
    ||| lex_lt(a.major, b.major)
    ||| (a.major == b.major && opt_lt(a.minor, b.minor))
    ||| (a.major == b.major && a.minor == b.minor && a.serial < b.serial)
}

/// Of two keys at most one sorts before the other, and none before itself.
pub proof fn lemma_key_asymmetric(a: Key, b: Key)
    ensures
        !(key_lt(a, b) && key_lt(b, a)),
        !key_lt(a, a),
{
    lemma_lex_asymmetric(a.major, b.major);
    lemma_lex_asymmetric(a.major, a.major);
    match (a.minor, b.minor) {
        (Some(x), Some(y)) => {
            lemma_lex_asymmetric(x, y);
            lemma_lex_asymmetric(x, x);
        },
        _ => {},
    }
}

/// The order of keys is transitive.
pub proof fn lemma_key_transitive(a: Key, b: Key, c: Key)
    requires
        key_lt(a, b),
        key_lt(b, c),
    ensures
        key_lt(a, c),
{
    if lex_lt(a.major, b.major) && lex_lt(b.major, c.major) {
        lemma_lex_transitive(a.major, b.major, c.major);
    }
    match (a.minor, b.minor, c.minor) {
        (Some(x), Some(y), Some(z)) => {
            if lex_lt(x, y) && lex_lt(y, z) {
                lemma_lex_transitive(x, y, z);
            }
        },
        _ => {},
    }
}

/// The order of keys is total.
pub proof fn lemma_key_total(a: Key, b: Key)
    ensures
        a == b || key_lt(a, b) || key_lt(b, a),
{
    lemma_lex_total(a.major, b.major);
    match (a.minor, b.minor) {
        (Some(x), Some(y)) => {
            lemma_lex_total(x, y);
        },
        _ => {},
    }
}

/// A value that a listing can hold: its view has a key, and two values can
/// be put in the order of their keys.
pub trait Keyed: View + Sized {
    /// The key of a value, from its view.
    spec fn key(v: Self::V) -> Key;

    /// How this value stands to `other` in the order of keys.
    fn rank_to(&self, other: &Self) -> (r: Rank)
        ensures
            r == Rank::Below <==> key_lt(Self::key(self@), Self::key(other@)),
            r == Rank::Same <==> Self::key(self@) == Self::key(other@),
            r == Rank::Above <==> key_lt(Self::key(other@), Self::key(self@)),
    ;
}

/// Every element sorts strictly before each later one.
pub open spec fn ascending<T: Keyed>(s: Seq<T::V>) -> bool {
    forall|i: int, j: int| 0 <= i < j < s.len() ==> key_lt(T::key(s[i]), T::key(s[j]))
}

/// Some element of `s` has the key `k`.
pub open spec fn has_key<T: Keyed>(s: Seq<T::V>, k: Key) -> bool {
    exists|i: int| 0 <= i < s.len() && T::key(#[trigger] s[i]) == k
}

/// `s` with `x` put in its place by key; where `s` holds the key of `x`
/// already, `s` itself.
pub open spec fn place<T: Keyed>(s: Seq<T::V>, x: T::V) -> Seq<T::V>
    decreases s.len(),
{
    if s.len() == 0 {
        seq![x]
    } else if key_lt(T::key(s.last()), T::key(x)) {
        s.push(x)
    } else if T::key(s.last()) == T::key(x) {
        s
    } else {
        place::<T>(s.drop_last(), x).push(s.last())
    }
}

/// In an ascending list, `place` is an insertion at the first position
/// whose key is not below the new one, and changes nothing where that
/// position holds the same key.
pub proof fn lemma_place_at<T: Keyed>(s: Seq<T::V>, x: T::V, at: int)
    requires
        ascending::<T>(s),
        0 <= at <= s.len(),
        forall|j: int| 0 <= j < at ==> key_lt(T::key(s[j]), T::key(x)),
        at < s.len() ==> !key_lt(T::key(s[at]), T::key(x)),
    ensures
        at < s.len() && T::key(s[at]) == T::key(x) ==> place::<T>(s, x) == s,
        !(at < s.len() && T::key(s[at]) == T::key(x)) ==> place::<T>(s, x) == s.insert(at, x),
    decreases s.len(),
{
    let k = T::key(x);
    if s.len() == 0 {
        assert(s.insert(0, x) =~= seq![x]);
    } else if at == s.len() {
        assert(s.insert(at, x) =~= s.push(x));
    } else {
        let last = T::key(s.last());
        lemma_key_total(T::key(s[at]), k);
        lemma_key_asymmetric(last, k);
        if at < s.len() - 1 {
            if T::key(s[at]) != k {
                lemma_key_transitive(k, T::key(s[at]), last);
            }
            lemma_key_asymmetric(last, k);
        }
        if at == s.len() - 1 && T::key(s[at]) == k {
        } else {
            assert(!key_lt(last, k));
            assert(last != k);
            let front = s.drop_last();
            lemma_place_at::<T>(front, x, at);
            if at < front.len() && T::key(front[at]) == k {
                assert(front.push(s.last()) =~= s);
            } else {
                assert(front.insert(at, x).push(s.last()) =~= s.insert(at, x));
            }
        }
    }
}

/// `place` keeps a list ascending, and adds the key of the new value to the
/// keys that the list holds, and no other.
pub proof fn lemma_place_keeps<T: Keyed>(s: Seq<T::V>, x: T::V)
    requires
        ascending::<T>(s),
    ensures
        ascending::<T>(place::<T>(s, x)),
        forall|k: Key| #[trigger]
            has_key::<T>(place::<T>(s, x), k) <==> (k == T::key(x) || has_key::<T>(s, k)),
        forall|i: int| 0 <= i < s.len() ==> place::<T>(s, x).contains(#[trigger] s[i]),
        forall|i: int|
            0 <= i < place::<T>(s, x).len() ==> #[trigger] place::<T>(s, x)[i] == x || s.contains(
                place::<T>(s, x)[i],
            ),
        !has_key::<T>(s, T::key(x)) ==> place::<T>(s, x).contains(x),
    decreases s.len(),
{
    let k = T::key(x);
    let out = place::<T>(s, x);
    if s.len() == 0 {
        assert(has_key::<T>(out, k)) by {
            assert(T::key(out[0]) == k);
        }
        assert(out[0] == x);
    } else if key_lt(T::key(s.last()), k) {
        assert(out[s.len() as int] == x);
        assert forall|i: int, j: int| 0 <= i < j < out.len() implies key_lt(
            T::key(out[i]),
            T::key(out[j]),
        ) by {
            if j == s.len() && i < s.len() - 1 {
                lemma_key_transitive(T::key(s[i]), T::key(s.last()), k);
            }
        }
        assert forall|q: Key| #[trigger]
            has_key::<T>(out, q) <==> (q == k || has_key::<T>(s, q)) by {
            if has_key::<T>(out, q) {
                let i = choose|i: int| 0 <= i < out.len() && T::key(#[trigger] out[i]) == q;
                if i < s.len() {
                    assert(T::key(s[i]) == q);
                }
            }
            if q == k {
                assert(T::key(out[s.len() as int]) == q);
            }
            if has_key::<T>(s, q) {
                let i = choose|i: int| 0 <= i < s.len() && T::key(#[trigger] s[i]) == q;
                assert(T::key(out[i]) == q);
            }
        }
        assert forall|i: int| 0 <= i < s.len() implies out.contains(#[trigger] s[i]) by {
            assert(out[i] == s[i]);
        }
        assert forall|i: int| 0 <= i < out.len() implies #[trigger] out[i] == x || s.contains(
            out[i],
        ) by {
            if i < s.len() {
                assert(s[i] == out[i]);
            }
        }
    } else if T::key(s.last()) == k {
        assert(has_key::<T>(s, k)) by {
            assert(T::key(s[s.len() - 1]) == k);
        }
        assert forall|i: int| 0 <= i < s.len() implies out.contains(#[trigger] s[i]) by {
            assert(out[i] == s[i]);
        }
        assert forall|i: int| 0 <= i < out.len() implies #[trigger] out[i] == x || s.contains(
            out[i],
        ) by {
            assert(s[i] == out[i]);
        }
    } else {
        let front = s.drop_last();
        let inner = place::<T>(front, x);
        lemma_place_keeps::<T>(front, x);
        lemma_key_total(T::key(s.last()), k);
        if !has_key::<T>(s, k) {
            if has_key::<T>(front, k) {
                let m = choose|m: int| 0 <= m < front.len() && T::key(#[trigger] front[m]) == k;
                assert(T::key(s[m]) == k);
            }
            let m = choose|m: int| 0 <= m < inner.len() && inner[m] == x;
            assert(out[m] == x);
        }
        assert forall|i: int, j: int| 0 <= i < j < out.len() implies key_lt(
            T::key(out[i]),
            T::key(out[j]),
        ) by {
            if j == inner.len() {
                if inner[i] == x {
                } else {
                    assert(front.contains(inner[i]));
                    let m = choose|m: int| 0 <= m < front.len() && front[m] == inner[i];
                    assert(key_lt(T::key(s[m]), T::key(s[s.len() - 1])));
                }
            }
        }
        assert forall|q: Key| #[trigger]
            has_key::<T>(out, q) <==> (q == k || has_key::<T>(s, q)) by {
            if has_key::<T>(out, q) {
                let i = choose|i: int| 0 <= i < out.len() && T::key(#[trigger] out[i]) == q;
                if i < inner.len() {
                    assert(T::key(inner[i]) == q);
                    assert(has_key::<T>(inner, q));
                    if q != k {
                        let m = choose|m: int|
                            0 <= m < front.len() && T::key(#[trigger] front[m]) == q;
                        assert(T::key(s[m]) == q);
                    }
                } else {
                    assert(T::key(s[s.len() - 1]) == q);
                }
            }
            if q == k {
                assert(has_key::<T>(inner, q));
                let i = choose|i: int| 0 <= i < inner.len() && T::key(#[trigger] inner[i]) == q;
                assert(T::key(out[i]) == q);
            }
            if has_key::<T>(s, q) {
                let i = choose|i: int| 0 <= i < s.len() && T::key(#[trigger] s[i]) == q;
                if i < front.len() {
                    assert(T::key(front[i]) == q);
                    assert(has_key::<T>(inner, q));
                    let m = choose|m: int| 0 <= m < inner.len() && T::key(#[trigger] inner[m]) == q;
                    assert(T::key(out[m]) == q);
                } else {
                    assert(T::key(out[inner.len() as int]) == q);
                }
            }
        }
        assert forall|i: int| 0 <= i < s.len() implies out.contains(#[trigger] s[i]) by {
            if i < front.len() {
                assert(inner.contains(front[i]));
                let m = choose|m: int| 0 <= m < inner.len() && inner[m] == front[i];
                assert(out[m] == s[i]);
            } else {
                assert(out[inner.len() as int] == s[i]);
            }
        }
        assert forall|i: int| 0 <= i < out.len() implies #[trigger] out[i] == x || s.contains(
            out[i],
        ) by {
            if i < inner.len() {
                assert(out[i] == inner[i]);
                if inner[i] != x {
                    assert(front.contains(inner[i]));
                    let m = choose|m: int| 0 <= m < front.len() && front[m] == inner[i];
                    assert(s[m] == out[i]);
                }
            } else {
                assert(s[s.len() - 1] == out[i]);
            }
        }
    }
}

/// Puts `x` in its place by key; where the list holds its key already, the
/// list stays as it is.
pub fn insert_sorted<T: Keyed>(list: &mut Vec<T>, x: T)
    requires
        ascending::<T>(views(old(list)@)),
    ensures
        views(final(list)@) == place::<T>(views(old(list)@), x@),
        ascending::<T>(views(final(list)@)),
{
    let ghost before = views(list@);
    let mut at: usize = 0;
    while at < list.len() && list[at].rank_to(&x) == Rank::Below
        invariant
            at <= list.len(),
            views(list@) == before,
            *list == *old(list),
            forall|j: int| 0 <= j < at ==> key_lt(T::key(#[trigger] before[j]), T::key(x@)),
        decreases list.len() - at,
    {
        at = at + 1;
    }
    proof {
        lemma_place_at::<T>(before, x@, at as int);
        lemma_place_keeps::<T>(before, x@);
    }
    if at < list.len() && list[at].rank_to(&x) == Rank::Same {
    } else {
        list.insert(at, x);
        assert(views(list@) =~= before.insert(at as int, x@));
    }
}

} // verus!
