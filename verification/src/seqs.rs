//! Sequences: where a value first stands, and the values in the order in which
//! they are first seen.
use vstd::prelude::*;

verus! {

/// The position of the first `x` in `s`; the length of `s` where there is none.
pub open spec fn first_index<T>(s: Seq<T>, x: T) -> int
    decreases s.len(),
{
    if s.len() == 0 || s[0] == x {
        0
    } else {
        1 + first_index(s.drop_first(), x)
    }
}

/// `x` stands at its first index, and nowhere before.
pub proof fn lemma_first_index<T>(s: Seq<T>, x: T)
    ensures
        0 <= first_index(s, x) <= s.len(),
        forall|i: int| 0 <= i < first_index(s, x) ==> s[i] != x,
        first_index(s, x) < s.len() ==> s[first_index(s, x)] == x,
        s.contains(x) <==> first_index(s, x) < s.len(),
    decreases s.len(),
{
    if s.len() == 0 || s[0] == x {
        if s.len() > 0 {
            assert(s.contains(s[0]));
        }
    } else {
        let rest = s.drop_first();
        lemma_first_index(rest, x);
        assert forall|i: int| 0 <= i < first_index(s, x) implies s[i] != x by {
            if i > 0 {
                assert(s[i] == rest[i - 1]);
            }
        }
        let n = first_index(s, x);
        if n < s.len() {
            assert(s[n] == rest[n - 1]);
        }
    }
}

/// A position at which `x` stands, with no `x` before it, is its first index.
pub proof fn lemma_is_first_index<T>(s: Seq<T>, x: T, n: int)
    requires
        0 <= n <= s.len(),
        forall|i: int| 0 <= i < n ==> s[i] != x,
        n < s.len() ==> s[n] == x,
    ensures
        first_index(s, x) == n,
{
    lemma_first_index(s, x);
    if first_index(s, x) < n {
        assert(s[first_index(s, x)] == x);
    }
}

/// The values of `s`, each once, in the order in which they first stand in it.
pub open spec fn first_seen<T>(s: Seq<T>) -> Seq<T>
    decreases s.len(),
{
    if s.len() == 0 {
        Seq::empty()
    } else {
        let seen = first_seen(s.drop_last());
        if seen.contains(s.last()) {
            seen
        } else {
            seen.push(s.last())
        }
    }
}

/// `first_seen` holds the values of `s`, and each of them once.
pub proof fn lemma_first_seen<T>(s: Seq<T>)
    ensures
        first_seen(s).no_duplicates(),
        first_seen(s).len() <= s.len(),
        forall|x: T| #[trigger] first_seen(s).contains(x) <==> s.contains(x),
    decreases s.len(),
{
    if s.len() > 0 {
        let rest = s.drop_last();
        let seen = first_seen(rest);
        lemma_first_seen(rest);
        assert(s == rest.push(s.last()));
        assert forall|x: T| #[trigger] first_seen(s).contains(x) <==> s.contains(x) by {
            lemma_push_contains(rest, s.last(), x);
            lemma_push_contains(seen, s.last(), x);
        }
    }
}

/// `first_seen` of one value more.
pub proof fn lemma_first_seen_push<T>(s: Seq<T>, x: T)
    ensures
        first_seen(s.push(x)) == if s.contains(x) {
            first_seen(s)
        } else {
            first_seen(s).push(x)
        },
{
    lemma_first_seen(s);
    assert(s.push(x).drop_last() == s);
}

/// What a sequence with one value more holds.
pub proof fn lemma_push_contains<T>(s: Seq<T>, x: T, y: T)
    ensures
        s.push(x).contains(y) <==> s.contains(y) || x == y,
{
    if s.contains(y) {
        let i = choose|i: int| 0 <= i < s.len() && s[i] == y;
        assert(s.push(x)[i] == y);
    }
    if x == y {
        assert(s.push(x)[s.len() as int] == y);
    }
    if s.push(x).contains(y) {
        let i = choose|i: int| 0 <= i < s.push(x).len() && s.push(x)[i] == y;
        if i < s.len() {
            assert(s[i] == y);
        }
    }
}

/// Selecting from a sequence with one value more.
pub proof fn lemma_filter_push<T>(s: Seq<T>, x: T, keep: spec_fn(T) -> bool)
    ensures
        s.push(x).filter(keep) == if keep(x) {
            s.filter(keep).push(x)
        } else {
            s.filter(keep)
        },
{
    reveal(Seq::filter);
    assert(s.push(x).drop_last() == s);
}

/// A selection is no longer than what it was taken from.
pub proof fn lemma_filter_len<T>(s: Seq<T>, keep: spec_fn(T) -> bool)
    ensures
        s.filter(keep).len() <= s.len(),
    decreases s.len(),
{
    reveal(Seq::filter);
    if s.len() > 0 {
        lemma_filter_len(s.drop_last(), keep);
    }
}

/// A selection holds what it was taken from, as far as it is kept.
pub proof fn lemma_filter_contains<T>(s: Seq<T>, keep: spec_fn(T) -> bool, x: T)
    ensures
        s.filter(keep).contains(x) <==> s.contains(x) && keep(x),
    decreases s.len(),
{
    if s.len() == 0 {
        reveal(Seq::filter);
    } else {
        let rest = s.drop_last();
        assert(s == rest.push(s.last()));
        lemma_filter_contains(rest, keep, x);
        lemma_filter_push(rest, s.last(), keep);
        lemma_push_contains(rest, s.last(), x);
        lemma_push_contains(rest.filter(keep), s.last(), x);
    }
}

/// A selection from values that differ has each of them once.
pub proof fn lemma_filter_no_duplicates<T>(s: Seq<T>, keep: spec_fn(T) -> bool)
    requires
        s.no_duplicates(),
    ensures
        s.filter(keep).no_duplicates(),
    decreases s.len(),
{
    if s.len() == 0 {
        reveal(Seq::filter);
    } else {
        let rest = s.drop_last();
        assert(s == rest.push(s.last()));
        lemma_filter_no_duplicates(rest, keep);
        lemma_filter_push(rest, s.last(), keep);
        lemma_filter_contains(rest, keep, s.last());
        assert forall|i: int| 0 <= i < rest.filter(keep).len() implies rest.filter(keep)[i]
            != s.last() by {
            assert(rest.filter(keep).contains(rest.filter(keep)[i]));
            if rest.contains(s.last()) {
                let k = choose|k: int| 0 <= k < rest.len() && rest[k] == s.last();
                assert(s[k] == s[s.len() - 1]);
            }
        }
    }
}

/// `first_seen` goes by where values first stand: what stands first comes first.
pub proof fn law_first_seen_keeps_the_order<T>(s: Seq<T>)
    ensures
        forall|i: int, j: int|
            0 <= i < j < first_seen(s).len() ==> first_index(s, #[trigger] first_seen(s)[i])
                < first_index(s, #[trigger] first_seen(s)[j]),
    decreases s.len(),
{
    if s.len() > 0 {
        let rest = s.drop_last();
        let seen = first_seen(rest);
        let all = first_seen(s);
        law_first_seen_keeps_the_order(rest);
        lemma_first_seen(rest);
        assert(s == rest.push(s.last()));
        assert forall|k: int| 0 <= k < seen.len() implies first_index(s, #[trigger] seen[k])
            == first_index(rest, seen[k]) && first_index(rest, seen[k]) < rest.len() by {
            assert(seen.contains(seen[k]));
            lemma_first_index(rest, seen[k]);
            let n = first_index(rest, seen[k]);
            assert forall|i: int| 0 <= i < n implies s[i] != seen[k] by {
                assert(s[i] == rest[i]);
            }
            assert(s[n] == rest[n]);
            lemma_is_first_index(s, seen[k], n);
        }
        assert forall|i: int, j: int| 0 <= i < j < all.len() implies first_index(
            s,
            #[trigger] all[i],
        ) < first_index(s, #[trigger] all[j]) by {
            assert(all[i] == seen[i]);
            if j < seen.len() {
                assert(all[j] == seen[j]);
            } else {
                assert(!seen.contains(s.last()));
                assert(!rest.contains(s.last()));
                lemma_first_index(s, s.last());
                let n = first_index(s, s.last());
                if n < rest.len() {
                    assert(rest[n] == s.last());
                    assert(rest.contains(s.last()));
                }
            }
        }
    }
}

/// The first of a selection is the first that is kept.
pub proof fn lemma_filter_first<T>(s: Seq<T>, keep: spec_fn(T) -> bool) -> (m: int)
    requires
        s.filter(keep).len() > 0,
    ensures
        0 <= m < s.len(),
        keep(s[m]),
        s.filter(keep)[0] == s[m],
        forall|i: int| 0 <= i < m ==> !keep(#[trigger] s[i]),
    decreases s.len(),
{
    if s.len() == 0 {
        reveal(Seq::filter);
        0
    } else {
        let rest = s.drop_last();
        assert(s == rest.push(s.last()));
        lemma_filter_push(rest, s.last(), keep);
        if rest.filter(keep).len() > 0 {
            let m = lemma_filter_first(rest, keep);
            assert(s[m] == rest[m]);
            assert forall|i: int| 0 <= i < m implies !keep(#[trigger] s[i]) by {
                assert(s[i] == rest[i]);
            }
            m
        } else {
            assert forall|i: int| 0 <= i < s.len() - 1 implies !keep(#[trigger] s[i]) by {
                lemma_filter_contains(rest, keep, rest[i]);
                assert(rest.contains(rest[i]));
                if keep(s[i]) {
                    let x = rest.filter(keep);
                    assert(x.contains(rest[i]));
                }
            }
            s.len() - 1
        }
    }
}

/// Selecting from a selection keeps what both keep.
pub proof fn lemma_filter_twice<T>(s: Seq<T>, first: spec_fn(T) -> bool, second: spec_fn(T) -> bool)
    ensures
        s.filter(first).filter(second) == s.filter(|x: T| first(x) && second(x)),
    decreases s.len(),
{
    let both = |x: T| first(x) && second(x);
    if s.len() == 0 {
        reveal(Seq::filter);
        assert(s.filter(first) == s);
    } else {
        let rest = s.drop_last();
        assert(s == rest.push(s.last()));
        lemma_filter_twice(rest, first, second);
        lemma_filter_push(rest, s.last(), first);
        lemma_filter_push(rest, s.last(), both);
        lemma_filter_push(rest.filter(first), s.last(), second);
    }
}

/// A selection keeps an order that held of what it was taken from.
pub proof fn lemma_filter_keeps_order<T>(
    s: Seq<T>,
    keep: spec_fn(T) -> bool,
    before: spec_fn(T, T) -> bool,
)
    requires
        forall|i: int, j: int| 0 <= i < j < s.len() ==> before(#[trigger] s[i], #[trigger] s[j]),
    ensures
        forall|i: int, j: int|
            0 <= i < j < s.filter(keep).len() ==> before(
                #[trigger] s.filter(keep)[i],
                #[trigger] s.filter(keep)[j],
            ),
    decreases s.len(),
{
    if s.len() == 0 {
        reveal(Seq::filter);
    } else {
        let rest = s.drop_last();
        let kept = rest.filter(keep);
        assert(s == rest.push(s.last()));
        assert forall|i: int, j: int| 0 <= i < j < rest.len() implies before(
            #[trigger] rest[i],
            #[trigger] rest[j],
        ) by {
            assert(before(s[i], s[j]));
        }
        lemma_filter_keeps_order(rest, keep, before);
        lemma_filter_push(rest, s.last(), keep);
        assert forall|i: int| 0 <= i < kept.len() implies before(#[trigger] kept[i], s.last()) by {
            assert(kept.contains(kept[i]));
            lemma_filter_contains(rest, keep, kept[i]);
            let k = choose|k: int| 0 <= k < rest.len() && rest[k] == kept[i];
            assert(before(s[k], s[s.len() - 1]));
        }
    }
}

} // verus!
