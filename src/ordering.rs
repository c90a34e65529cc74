//! Sorting and key-unique merging of header and query lists.
use vstd::prelude::*;
use vstd::string::*;
use crate::text::{str_lt, str_less, concat2};

verus! {

/// A header or query parameter: a name and its value.
pub type Pair = (Seq<char>, Seq<char>);

/// The characters of each pair of strings.
pub open spec fn pairs_view(v: Seq<(String, String)>) -> Seq<Pair> {
    v.map_values(|p: (String, String)| (p.0@, p.1@))
}

/// The characters of each string.
pub open spec fn strings_view(v: Seq<String>) -> Seq<Seq<char>> {
    v.map_values(|s: String| s@)
}

/// A pair written as `name:value`.
pub open spec fn line_of(p: Pair) -> Seq<char> {
    p.0 + seq![':'] + p.1
}

/// Orders pairs by `name:value`.
pub open spec fn by_line() -> spec_fn(Pair) -> Seq<char> {
    |p: Pair| line_of(p)
}

/// Orders pairs by name alone.
pub open spec fn by_name() -> spec_fn(Pair) -> Seq<char> {
    |p: Pair| p.0
}

/// Orders strings by themselves.
pub open spec fn by_self() -> spec_fn(Seq<char>) -> Seq<char> {
    |s: Seq<char>| s
}

/// Places `x` after every element whose key is not greater than its own.
pub open spec fn insert_sorted<T>(s: Seq<T>, x: T, key: spec_fn(T) -> Seq<char>) -> Seq<T>
    decreases s.len(),
{
    if s.len() == 0 {
        seq![x]
    } else if str_lt(key(x), key(s[0])) {
        seq![x] + s
    } else {
        seq![s[0]] + insert_sorted(s.drop_first(), x, key)
    }
}

/// Stable insertion sort by key.
pub open spec fn sort_by_key<T>(s: Seq<T>, key: spec_fn(T) -> Seq<char>) -> Seq<T>
    decreases s.len(),
{
    if s.len() == 0 {
        s
    } else {
        insert_sorted(sort_by_key(s.drop_last(), key), s.last(), key)
    }
}

/// No element's key is greater than a later one's.
pub open spec fn sorted_by<T>(s: Seq<T>, key: spec_fn(T) -> Seq<char>) -> bool {
    forall|i: int, j: int| 0 <= i < j < s.len() ==> !str_lt(key(s[j]), key(s[i]))
}

/// Puts `p` in name order, replacing the value of an entry of the same name.
/// On a list sorted by name with unique names this is an ordered map's insert.
pub open spec fn insert_unique(s: Seq<Pair>, p: Pair) -> Seq<Pair>
    decreases s.len(),
{
    if s.len() == 0 {
        seq![p]
    } else if s[0].0 == p.0 {
        seq![p] + s.drop_first()
    } else if str_lt(p.0, s[0].0) {
        seq![p] + s
    } else {
        seq![s[0]] + insert_unique(s.drop_first(), p)
    }
}

/// The pairs of `s` by name, one per name, each with the last value given for it.
pub open spec fn sort_unique(s: Seq<Pair>) -> Seq<Pair>
    decreases s.len(),
{
    if s.len() == 0 {
        s
    } else {
        insert_unique(sort_unique(s.drop_last()), s.last())
    }
}

/// Names strictly ascending.
pub open spec fn strictly_by_name(s: Seq<Pair>) -> bool {
    forall|i: int, j: int| 0 <= i < j < s.len() ==> str_lt(#[trigger] s[i].0, #[trigger] s[j].0)
}

/// The strings of `s` joined by `sep`.
pub open spec fn join(s: Seq<Seq<char>>, sep: Seq<char>) -> Seq<char>
    decreases s.len(),
{
    if s.len() == 0 {
        Seq::empty()
    } else if s.len() == 1 {
        s[0]
    } else {
        join(s.drop_last(), sep) + sep + s.last()
    }
}

pub proof fn lemma_str_lt_irreflexive(a: Seq<char>)
    ensures
        !str_lt(a, a),
    decreases a.len(),
{
    if a.len() > 0 {
        lemma_str_lt_irreflexive(a.drop_first());
    }
}

pub proof fn lemma_str_lt_asymmetric(a: Seq<char>, b: Seq<char>)
    ensures
        !(str_lt(a, b) && str_lt(b, a)),
    decreases a.len(),
{
    if a.len() > 0 && b.len() > 0 && a[0] == b[0] {
        lemma_str_lt_asymmetric(a.drop_first(), b.drop_first());
    }
}

pub proof fn lemma_str_lt_total(a: Seq<char>, b: Seq<char>)
    ensures
        a != b ==> str_lt(a, b) || str_lt(b, a),
    decreases a.len(),
{
    if a.len() > 0 && b.len() > 0 && a[0] == b[0] {
        lemma_str_lt_total(a.drop_first(), b.drop_first());
        if a.drop_first() == b.drop_first() {
            assert(a =~= seq![a[0]] + a.drop_first());
            assert(b =~= seq![b[0]] + b.drop_first());
        }
    } else if a.len() == 0 && b.len() == 0 {
        assert(a =~= b);
    }
}

proof fn lemma_insert_sorted_at<T>(s: Seq<T>, x: T, key: spec_fn(T) -> Seq<char>, i: int)
    requires
        0 <= i <= s.len(),
        forall|j: int| 0 <= j < i ==> !str_lt(key(x), key(#[trigger] s[j])),
        i < s.len() ==> str_lt(key(x), key(s[i])),
    ensures
        insert_sorted(s, x, key) == s.take(i) + seq![x] + s.skip(i),
    decreases s.len(),
{
    if s.len() == 0 {
        assert(s.take(i) + seq![x] + s.skip(i) =~= seq![x]);
    } else if i == 0 {
        assert(s.take(i) + seq![x] + s.skip(i) =~= seq![x] + s);
    } else {
        let t = s.drop_first();
        assert forall|j: int| 0 <= j < i - 1 implies !str_lt(key(x), key(#[trigger] t[j])) by {
            assert(t[j] == s[j + 1]);
        }
        lemma_insert_sorted_at(t, x, key, i - 1);
        assert(s.take(i) + seq![x] + s.skip(i) =~= seq![s[0]] + (t.take(i - 1) + seq![x] + t.skip(
            i - 1,
        )));
    }
}

proof fn lemma_insert_unique_at(s: Seq<Pair>, p: Pair, i: int)
    requires
        0 <= i <= s.len(),
        forall|j: int| 0 <= j < i ==> str_lt(#[trigger] s[j].0, p.0),
    ensures
        i < s.len() && s[i].0 == p.0 ==> insert_unique(s, p) == s.take(i) + seq![p] + s.skip(
            i + 1,
        ),
        i < s.len() && str_lt(p.0, s[i].0) ==> insert_unique(s, p) == s.take(i) + seq![p]
            + s.skip(i),
        i == s.len() ==> insert_unique(s, p) == s.push(p),
    decreases s.len(),
{
    lemma_str_lt_irreflexive(p.0);
    if s.len() == 0 {
        assert(seq![p] =~= s.push(p));
    } else if i == 0 {
        if s[0].0 == p.0 {
            assert(s.take(0) + seq![p] + s.skip(1) =~= seq![p] + s.drop_first());
        } else if str_lt(p.0, s[0].0) {
            assert(s.take(0) + seq![p] + s.skip(0) =~= seq![p] + s);
        }
    } else {
        let t = s.drop_first();
        lemma_str_lt_irreflexive(p.0);
        lemma_str_lt_asymmetric(s[0].0, p.0);
        assert(s[0].0 != p.0);
        assert(!str_lt(p.0, s[0].0));
        assert forall|j: int| 0 <= j < i - 1 implies str_lt(#[trigger] t[j].0, p.0) by {
            assert(t[j] == s[j + 1]);
        }
        lemma_insert_unique_at(t, p, i - 1);
        if i < s.len() {
            assert(t[i - 1] == s[i]);
            assert(s.take(i) + seq![p] + s.skip(i + 1) =~= seq![s[0]] + (t.take(i - 1) + seq![p]
                + t.skip(i)));
            assert(s.take(i) + seq![p] + s.skip(i) =~= seq![s[0]] + (t.take(i - 1) + seq![p]
                + t.skip(i - 1)));
        } else {
            assert(s.push(p) =~= seq![s[0]] + t.push(p));
        }
    }
}

/// Inserting an element whose key is not below any key of the list appends it.
pub proof fn lemma_insert_sorted_last<T>(s: Seq<T>, x: T, key: spec_fn(T) -> Seq<char>)
    requires
        forall|j: int| 0 <= j < s.len() ==> !str_lt(key(x), key(#[trigger] s[j])),
    ensures
        insert_sorted(s, x, key) == s.push(x),
{
    lemma_insert_sorted_at(s, x, key, s.len() as int);
    assert(s.take(s.len() as int) + seq![x] + s.skip(s.len() as int) =~= s.push(x));
}

/// Sorting a list that is already sorted leaves it as it is.
pub proof fn lemma_sort_sorted<T>(s: Seq<T>, key: spec_fn(T) -> Seq<char>)
    requires
        sorted_by(s, key),
    ensures
        sort_by_key(s, key) == s,
    decreases s.len(),
{
    if s.len() > 0 {
        let t = s.drop_last();
        assert(sorted_by(t, key)) by {
            assert forall|i: int, j: int| 0 <= i < j < t.len() implies !str_lt(
                key(t[j]),
                key(t[i]),
            ) by {
                assert(t[i] == s[i] && t[j] == s[j]);
            }
        }
        lemma_sort_sorted(t, key);
        assert forall|j: int| 0 <= j < t.len() implies !str_lt(key(s.last()), key(#[trigger] t[j])) by {
            assert(t[j] == s[j]);
        }
        lemma_insert_sorted_last(t, s.last(), key);
        assert(t.push(s.last()) =~= s);
    }
}

/// Inserting keeps a property that every element and the new one have.
pub proof fn lemma_insert_sorted_all<T>(
    s: Seq<T>,
    x: T,
    key: spec_fn(T) -> Seq<char>,
    pred: spec_fn(T) -> bool,
)
    requires
        forall|i: int| 0 <= i < s.len() ==> pred(#[trigger] s[i]),
        pred(x),
    ensures
        forall|i: int|
            0 <= i < insert_sorted(s, x, key).len() ==> pred(#[trigger] insert_sorted(s, x, key)[i]),
    decreases s.len(),
{
    if s.len() > 0 && !str_lt(key(x), key(s[0])) {
        let t = s.drop_first();
        assert forall|i: int| 0 <= i < t.len() implies pred(#[trigger] t[i]) by {
            assert(t[i] == s[i + 1]);
        }
        lemma_insert_sorted_all(t, x, key, pred);
        let r = insert_sorted(s, x, key);
        assert forall|i: int| 0 <= i < r.len() implies pred(#[trigger] r[i]) by {
            if i > 0 {
                assert(r[i] == insert_sorted(t, x, key)[i - 1]);
            }
        }
    } else if s.len() > 0 {
        let r = insert_sorted(s, x, key);
        assert forall|i: int| 0 <= i < r.len() implies pred(#[trigger] r[i]) by {
            if i > 0 {
                assert(r[i] == s[i - 1]);
            }
        }
    }
}

/// Sorting keeps a property that every element has.
pub proof fn lemma_sort_all<T>(s: Seq<T>, key: spec_fn(T) -> Seq<char>, pred: spec_fn(T) -> bool)
    requires
        forall|i: int| 0 <= i < s.len() ==> pred(#[trigger] s[i]),
    ensures
        forall|i: int| 0 <= i < sort_by_key(s, key).len() ==> pred(#[trigger] sort_by_key(s, key)[i]),
    decreases s.len(),
{
    if s.len() > 0 {
        let t = s.drop_last();
        assert forall|i: int| 0 <= i < t.len() implies pred(#[trigger] t[i]) by {
            assert(t[i] == s[i]);
        }
        lemma_sort_all(t, key, pred);
        lemma_insert_sorted_all(sort_by_key(t, key), s.last(), key, pred);
    }
}

pub proof fn lemma_str_lt_transitive(a: Seq<char>, b: Seq<char>, c: Seq<char>)
    requires
        str_lt(a, b),
        str_lt(b, c),
    ensures
        str_lt(a, c),
    decreases a.len(),
{
    if a.len() > 0 && a[0] == b[0] && b[0] == c[0] {
        lemma_str_lt_transitive(a.drop_first(), b.drop_first(), c.drop_first());
    }
}

/// Inserting by name keeps a property that every element and the new one have.
proof fn lemma_insert_unique_all(s: Seq<Pair>, p: Pair, pred: spec_fn(Pair) -> bool)
    requires
        forall|i: int| 0 <= i < s.len() ==> pred(#[trigger] s[i]),
        pred(p),
    ensures
        forall|i: int| 0 <= i < insert_unique(s, p).len() ==> pred(#[trigger] insert_unique(s, p)[i]),
    decreases s.len(),
{
    if s.len() > 0 {
        let t = s.drop_first();
        let r = insert_unique(s, p);
        assert forall|i: int| 0 <= i < t.len() implies pred(#[trigger] t[i]) by {
            assert(t[i] == s[i + 1]);
        }
        lemma_insert_unique_all(t, p, pred);
        assert forall|i: int| 0 <= i < r.len() implies pred(#[trigger] r[i]) by {
            if i > 0 {
                if s[0].0 == p.0 {
                    assert(r[i] == t[i - 1]);
                } else if str_lt(p.0, s[0].0) {
                    assert(r[i] == s[i - 1]);
                } else {
                    assert(r[i] == insert_unique(t, p)[i - 1]);
                }
            }
        }
    }
}

/// Inserting by name into a list in strict name order keeps it in strict name order.
pub proof fn lemma_insert_unique_strict(s: Seq<Pair>, p: Pair)
    requires
        strictly_by_name(s),
    ensures
        strictly_by_name(insert_unique(s, p)),
    decreases s.len(),
{
    if s.len() > 0 {
        let t = s.drop_first();
        let r = insert_unique(s, p);
        assert(strictly_by_name(t)) by {
            assert forall|i: int, j: int| 0 <= i < j < t.len() implies str_lt(
                #[trigger] t[i].0,
                #[trigger] t[j].0,
            ) by {
                assert(t[i] == s[i + 1] && t[j] == s[j + 1]);
            }
        }
        if s[0].0 == p.0 {
            assert forall|i: int, j: int| 0 <= i < j < r.len() implies str_lt(
                #[trigger] r[i].0,
                #[trigger] r[j].0,
            ) by {
                assert(r[j] == s[j]);
                if i > 0 {
                    assert(r[i] == s[i]);
                }
            }
        } else if str_lt(p.0, s[0].0) {
            assert forall|i: int, j: int| 0 <= i < j < r.len() implies str_lt(
                #[trigger] r[i].0,
                #[trigger] r[j].0,
            ) by {
                assert(r[j] == s[j - 1]);
                if i > 0 {
                    assert(r[i] == s[i - 1]);
                } else if j > 1 {
                    lemma_str_lt_transitive(p.0, s[0].0, s[j - 1].0);
                }
            }
        } else {
            lemma_insert_unique_strict(t, p);
            lemma_str_lt_total(s[0].0, p.0);
            let first = s[0].0;
            let pred = |q: Pair| str_lt(first, q.0);
            assert forall|i: int| 0 <= i < t.len() implies pred(#[trigger] t[i]) by {
                assert(t[i] == s[i + 1]);
            }
            lemma_insert_unique_all(t, p, pred);
            let u = insert_unique(t, p);
            assert forall|i: int, j: int| 0 <= i < j < r.len() implies str_lt(
                #[trigger] r[i].0,
                #[trigger] r[j].0,
            ) by {
                assert(r[j] == u[j - 1]);
                if i > 0 {
                    assert(r[i] == u[i - 1]);
                } else {
                    assert(pred(u[j - 1]));
                }
            }
        }
    }
}

/// One entry per name, in strict name order.
pub proof fn lemma_sort_unique_strict(s: Seq<Pair>)
    ensures
        strictly_by_name(sort_unique(s)),
    decreases s.len(),
{
    if s.len() > 0 {
        lemma_sort_unique_strict(s.drop_last());
        lemma_insert_unique_strict(sort_unique(s.drop_last()), s.last());
    }
}

/// The inserted pair is in the result.
proof fn lemma_insert_unique_has(s: Seq<Pair>, p: Pair)
    ensures
        insert_unique(s, p).contains(p),
    decreases s.len(),
{
    if s.len() == 0 || s[0].0 == p.0 || str_lt(p.0, s[0].0) {
        assert(insert_unique(s, p)[0] == p);
    } else {
        lemma_insert_unique_has(s.drop_first(), p);
        let j = choose|j: int| 0 <= j < insert_unique(s.drop_first(), p).len() && insert_unique(
            s.drop_first(),
            p,
        )[j] == p;
        assert(insert_unique(s, p)[j + 1] == p);
    }
}

/// A pair of another name stays.
proof fn lemma_insert_unique_keeps(s: Seq<Pair>, p: Pair, q: Pair)
    requires
        s.contains(q),
        q.0 != p.0,
    ensures
        insert_unique(s, p).contains(q),
    decreases s.len(),
{
    let r = insert_unique(s, p);
    let k = choose|k: int| 0 <= k < s.len() && s[k] == q;
    if s[0].0 == p.0 {
        assert(k > 0);
        assert(r[k] == q);
    } else if str_lt(p.0, s[0].0) {
        assert(r[k + 1] == q);
    } else if k == 0 {
        assert(r[0] == q);
    } else {
        let t = s.drop_first();
        assert(t[k - 1] == q);
        lemma_insert_unique_keeps(t, p, q);
        let j = choose|j: int| 0 <= j < insert_unique(t, p).len() && insert_unique(t, p)[j] == q;
        assert(r[j + 1] == q);
    }
}

/// The last pair given for a name is in the result.
pub proof fn lemma_sort_unique_last_wins(s: Seq<Pair>, i: int)
    requires
        0 <= i < s.len(),
        forall|j: int| i < j < s.len() ==> (#[trigger] s[j]).0 != s[i].0,
    ensures
        sort_unique(s).contains(s[i]),
    decreases s.len(),
{
    let t = s.drop_last();
    if i == s.len() - 1 {
        lemma_insert_unique_has(sort_unique(t), s.last());
    } else {
        assert forall|j: int| i < j < t.len() implies (#[trigger] t[j]).0 != t[i].0 by {
            assert(t[j] == s[j]);
        }
        lemma_sort_unique_last_wins(t, i);
        assert(s[s.len() - 1].0 != s[i].0);
        lemma_insert_unique_keeps(sort_unique(t), s.last(), s[i]);
    }
}

/// Inserting adds exactly the new element.
pub proof fn lemma_insert_sorted_multiset<T>(s: Seq<T>, x: T, key: spec_fn(T) -> Seq<char>)
    ensures
        insert_sorted(s, x, key).to_multiset() == s.to_multiset().insert(x),
    decreases s.len(),
{
    broadcast use vstd::multiset::group_multiset_axioms;

    let r = insert_sorted(s, x, key);
    r.to_multiset_ensures();
    s.to_multiset_ensures();
    if s.len() == 0 || str_lt(key(x), key(s[0])) {
        assert(r.remove(0) =~= s);
        assert(r.to_multiset().count(x) > 0);
        assert(r.to_multiset() =~= s.to_multiset().insert(x));
    } else {
        let t = s.drop_first();
        lemma_insert_sorted_multiset(t, x, key);
        assert(r.remove(0) =~= insert_sorted(t, x, key));
        assert(s.remove(0) =~= t);
        assert(r[0] == s[0]);
        let a = s[0];
        assert(r.remove(0).to_multiset() == r.to_multiset().remove(a));
        assert(s.remove(0).to_multiset() == s.to_multiset().remove(a));
        assert(r.to_multiset().count(a) > 0);
        assert(s.to_multiset().count(a) > 0);
        assert(r.to_multiset().remove(a) == s.to_multiset().remove(a).insert(x));
        assert forall|b: T| #[trigger] r.to_multiset().count(b) == s.to_multiset().insert(x).count(b) by {
            if b == a {
                assert(r.to_multiset().remove(a).count(a) == r.to_multiset().count(a) - 1);
                assert(s.to_multiset().remove(a).count(a) == s.to_multiset().count(a) - 1);
            } else {
                assert(r.to_multiset().remove(a).count(b) == r.to_multiset().count(b));
                assert(s.to_multiset().remove(a).count(b) == s.to_multiset().count(b));
            }
        }
        assert(r.to_multiset() =~= s.to_multiset().insert(x));
    }
}

/// Sorting only reorders: the result holds the same elements, as often.
pub proof fn lemma_sort_multiset<T>(s: Seq<T>, key: spec_fn(T) -> Seq<char>)
    ensures
        sort_by_key(s, key).to_multiset() == s.to_multiset(),
    decreases s.len(),
{
    if s.len() > 0 {
        let t = s.drop_last();
        lemma_sort_multiset(t, key);
        lemma_insert_sorted_multiset(sort_by_key(t, key), s.last(), key);
        t.to_multiset_ensures();
        assert(t.push(s.last()) =~= s);
    }
}

/// Sorting a list without duplicates gives one without duplicates.
pub proof fn lemma_sort_no_duplicates<T>(s: Seq<T>, key: spec_fn(T) -> Seq<char>)
    requires
        s.no_duplicates(),
    ensures
        sort_by_key(s, key).no_duplicates(),
{
    lemma_sort_multiset(s, key);
    s.lemma_multiset_has_no_duplicates();
    sort_by_key(s, key).lemma_multiset_has_no_duplicates_conv();
}

/// Every entry of `sort_unique(s)` is an entry of `s`.
pub proof fn lemma_sort_unique_from_input(s: Seq<Pair>)
    ensures
        forall|i: int| 0 <= i < sort_unique(s).len() ==> s.contains(#[trigger] sort_unique(s)[i]),
    decreases s.len(),
{
    if s.len() > 0 {
        let t = s.drop_last();
        lemma_sort_unique_from_input(t);
        let u = sort_unique(t);
        assert forall|i: int| 0 <= i < u.len() implies s.contains(#[trigger] u[i]) by {
            let k = choose|k: int| 0 <= k < t.len() && t[k] == u[i];
            assert(s[k] == u[i]);
        }
        assert(s[s.len() - 1] == s.last());
        lemma_insert_unique_all(u, s.last(), |q: Pair| s.contains(q));
    }
}

/// Every name of `s` has an entry in `sort_unique(s)`.
pub proof fn lemma_sort_unique_has_name(s: Seq<Pair>, i: int)
    requires
        0 <= i < s.len(),
    ensures
        exists|k: int| 0 <= k < sort_unique(s).len() && (#[trigger] sort_unique(s)[k]).0 == s[i].0,
    decreases s.len(),
{
    let t = s.drop_last();
    let r = sort_unique(s);
    if s.last().0 == s[i].0 {
        lemma_insert_unique_has(sort_unique(t), s.last());
        let k = choose|k: int| 0 <= k < r.len() && r[k] == s.last();
        assert(r[k].0 == s[i].0);
    } else {
        assert(i < t.len());
        assert(t[i] == s[i]);
        lemma_sort_unique_has_name(t, i);
        let u = sort_unique(t);
        let k = choose|k: int| 0 <= k < u.len() && (#[trigger] u[k]).0 == t[i].0;
        assert(u.contains(u[k]));
        lemma_insert_unique_keeps(u, s.last(), u[k]);
        let k2 = choose|k2: int| 0 <= k2 < r.len() && r[k2] == u[k];
        assert(r[k2].0 == s[i].0);
    }
}

/// Inserting into a sorted list keeps it sorted.
pub proof fn lemma_insert_sorted_sorted<T>(s: Seq<T>, x: T, key: spec_fn(T) -> Seq<char>)
    requires
        sorted_by(s, key),
    ensures
        sorted_by(insert_sorted(s, x, key), key),
    decreases s.len(),
{
    let r = insert_sorted(s, x, key);
    if s.len() == 0 {
    } else if str_lt(key(x), key(s[0])) {
        assert forall|i: int, j: int| 0 <= i < j < r.len() implies !str_lt(key(r[j]), key(r[i])) by {
            assert(r[j] == s[j - 1]);
            if i > 0 {
                assert(r[i] == s[i - 1]);
            } else if str_lt(key(s[j - 1]), key(x)) {
                lemma_str_lt_transitive(key(s[j - 1]), key(x), key(s[0]));
                if j - 1 == 0 {
                    lemma_str_lt_irreflexive(key(s[0]));
                }
            }
        }
    } else {
        let t = s.drop_first();
        assert(sorted_by(t, key)) by {
            assert forall|i: int, j: int| 0 <= i < j < t.len() implies !str_lt(
                key(t[j]),
                key(t[i]),
            ) by {
                assert(t[i] == s[i + 1] && t[j] == s[j + 1]);
            }
        }
        lemma_insert_sorted_sorted(t, x, key);
        let first = s[0];
        let pred = |e: T| !str_lt(key(e), key(first));
        assert forall|i: int| 0 <= i < t.len() implies pred(#[trigger] t[i]) by {
            assert(t[i] == s[i + 1]);
        }
        lemma_insert_sorted_all(t, x, key, pred);
        let u = insert_sorted(t, x, key);
        assert forall|i: int, j: int| 0 <= i < j < r.len() implies !str_lt(key(r[j]), key(r[i])) by {
            assert(r[j] == u[j - 1]);
            if i > 0 {
                assert(r[i] == u[i - 1]);
            } else {
                assert(pred(u[j - 1]));
            }
        }
    }
}

/// The stable sort's result is sorted by key.
pub proof fn lemma_sort_is_sorted<T>(s: Seq<T>, key: spec_fn(T) -> Seq<char>)
    ensures
        sorted_by(sort_by_key(s, key), key),
    decreases s.len(),
{
    if s.len() > 0 {
        lemma_sort_is_sorted(s.drop_last(), key);
        lemma_insert_sorted_sorted(sort_by_key(s.drop_last(), key), s.last(), key);
    }
}

fn clone_pair(p: &(String, String)) -> (r: (String, String))
    ensures
        r.0@ == p.0@,
        r.1@ == p.1@,
{
    (p.0.clone(), p.1.clone())
}

/// The pair written as `name:value`.
pub fn pair_line(p: &(String, String)) -> (r: String)
    ensures
        r@ == line_of((p.0@, p.1@)),
{
    let mut r = concat2(p.0.as_str(), ":");
    proof {
        reveal_strlit(":");
    }
    r.append(p.1.as_str());
    r
}

/// Inserts `x` into `v` by `name:value`, after the entries not greater than it.
fn insert_pair_by_line(v: &mut Vec<(String, String)>, x: (String, String))
    ensures
        pairs_view(final(v)@) == insert_sorted(pairs_view(old(v)@), (x.0@, x.1@), by_line()),
{
    let ghost s = pairs_view(v@);
    let ghost xv = (x.0@, x.1@);
    let kx = pair_line(&x);
    let mut i: usize = 0;
    while i < v.len()
        invariant
            s == pairs_view(v@),
            i <= v.len(),
            kx@ == line_of(xv),
            forall|j: int| 0 <= j < i ==> !str_lt(by_line()(xv), by_line()(#[trigger] s[j])),
        ensures
            i <= v.len(),
            forall|j: int| 0 <= j < i ==> !str_lt(by_line()(xv), by_line()(#[trigger] s[j])),
            i < v.len() ==> str_lt(by_line()(xv), by_line()(s[i as int])),
        decreases v.len() - i,
    {
        let ki = pair_line(&v[i]);
        if str_less(kx.as_str(), ki.as_str()) {
            break;
        }
        i = i + 1;
    }
    proof {
        lemma_insert_sorted_at(s, xv, by_line(), i as int);
    }
    v.insert(i, x);
    assert(pairs_view(v@) =~= s.take(i as int) + seq![xv] + s.skip(i as int));
}

/// Stable sort of pairs by `name:value`.
pub fn sort_pairs_by_line(v: &Vec<(String, String)>) -> (r: Vec<(String, String)>)
    ensures
        pairs_view(r@) == sort_by_key(pairs_view(v@), by_line()),
{
    let mut r: Vec<(String, String)> = Vec::new();
    let mut i: usize = 0;
    while i < v.len()
        invariant
            i <= v.len(),
            pairs_view(r@) == sort_by_key(pairs_view(v@.take(i as int)), by_line()),
        decreases v.len() - i,
    {
        let p = clone_pair(&v[i]);
        assert(pairs_view(v@.take(i + 1)).drop_last() =~= pairs_view(v@.take(i as int)));
        insert_pair_by_line(&mut r, p);
        i = i + 1;
    }
    assert(v@.take(v.len() as int) =~= v@);
    r
}

/// Inserts `x` into `v` by name, after the entries whose name is not greater.
fn insert_pair_by_name(v: &mut Vec<(String, String)>, x: (String, String))
    ensures
        pairs_view(final(v)@) == insert_sorted(pairs_view(old(v)@), (x.0@, x.1@), by_name()),
{
    let ghost s = pairs_view(v@);
    let ghost xv = (x.0@, x.1@);
    let mut i: usize = 0;
    while i < v.len()
        invariant
            s == pairs_view(v@),
            i <= v.len(),
            xv == (x.0@, x.1@),
            forall|j: int| 0 <= j < i ==> !str_lt(by_name()(xv), by_name()(#[trigger] s[j])),
        ensures
            i <= v.len(),
            forall|j: int| 0 <= j < i ==> !str_lt(by_name()(xv), by_name()(#[trigger] s[j])),
            i < v.len() ==> str_lt(by_name()(xv), by_name()(s[i as int])),
        decreases v.len() - i,
    {
        assert(s[i as int] == (v@[i as int].0@, v@[i as int].1@));
        if str_less(x.0.as_str(), v[i].0.as_str()) {
            break;
        }
        i = i + 1;
    }
    proof {
        lemma_insert_sorted_at(s, xv, by_name(), i as int);
    }
    v.insert(i, x);
    assert(pairs_view(v@) =~= s.take(i as int) + seq![xv] + s.skip(i as int));
}

/// Stable sort of pairs by name: pairs of one name keep their order.
pub fn sort_pairs_by_name(v: &Vec<(String, String)>) -> (r: Vec<(String, String)>)
    ensures
        pairs_view(r@) == sort_by_key(pairs_view(v@), by_name()),
{
    let mut r: Vec<(String, String)> = Vec::new();
    let mut i: usize = 0;
    while i < v.len()
        invariant
            i <= v.len(),
            pairs_view(r@) == sort_by_key(pairs_view(v@.take(i as int)), by_name()),
        decreases v.len() - i,
    {
        let p = clone_pair(&v[i]);
        assert(pairs_view(v@.take(i + 1)).drop_last() =~= pairs_view(v@.take(i as int)));
        insert_pair_by_name(&mut r, p);
        i = i + 1;
    }
    assert(v@.take(v.len() as int) =~= v@);
    r
}

/// Inserts `x` into `v`, a list in strict name order, replacing an entry of the same name.
pub fn insert_pair_unique(v: &mut Vec<(String, String)>, x: (String, String))
    ensures
        pairs_view(final(v)@) == insert_unique(pairs_view(old(v)@), (x.0@, x.1@)),
{
    let ghost s = pairs_view(v@);
    let ghost xv = (x.0@, x.1@);
    let mut i: usize = 0;
    while i < v.len()
        invariant
            s == pairs_view(v@),
            i <= v.len(),
            forall|j: int| 0 <= j < i ==> str_lt(#[trigger] s[j].0, xv.0),
            xv == (x.0@, x.1@),
        ensures
            i <= v.len(),
            forall|j: int| 0 <= j < i ==> str_lt(#[trigger] s[j].0, xv.0),
            i < v.len() ==> !str_lt(s[i as int].0, xv.0),
        decreases v.len() - i,
    {
        let a = v[i].0.as_str();
        let b = x.0.as_str();
        assert(a@ == s[i as int].0);
        assert(b@ == xv.0);
        if !str_less(a, b) {
            assert(!str_lt(s[i as int].0, xv.0));
            break;
        }
        assert(str_lt(s[i as int].0, xv.0));
        i = i + 1;
    }
    proof {
        lemma_insert_unique_at(s, xv, i as int);
    }
    assert(i < v.len() ==> s[i as int] == (v@[i as int].0@, v@[i as int].1@));
    if i < v.len() && !str_less(x.0.as_str(), v[i].0.as_str()) {
        proof {
            lemma_str_lt_total(s[i as int].0, xv.0);
        }
        v.set(i, x);
        assert(pairs_view(v@) =~= s.take(i as int) + seq![xv] + s.skip(i + 1));
    } else {
        proof {
            if i < v.len() {
                lemma_str_lt_total(s[i as int].0, xv.0);
            }
        }
        v.insert(i, x);
        assert(pairs_view(v@) =~= s.take(i as int) + seq![xv] + s.skip(i as int));
        assert(i == s.len() ==> s.take(i as int) + seq![xv] + s.skip(i as int) =~= s.push(xv));
    }
}

/// Pairs in strict name order, one per name, the last value given for a name winning.
pub fn sort_pairs_unique(v: &Vec<(String, String)>) -> (r: Vec<(String, String)>)
    ensures
        pairs_view(r@) == sort_unique(pairs_view(v@)),
{
    let mut r: Vec<(String, String)> = Vec::new();
    let mut i: usize = 0;
    while i < v.len()
        invariant
            i <= v.len(),
            pairs_view(r@) == sort_unique(pairs_view(v@.take(i as int))),
        decreases v.len() - i,
    {
        let p = clone_pair(&v[i]);
        assert(pairs_view(v@.take(i + 1)).drop_last() =~= pairs_view(v@.take(i as int)));
        insert_pair_unique(&mut r, p);
        i = i + 1;
    }
    assert(v@.take(v.len() as int) =~= v@);
    r
}

fn insert_string(v: &mut Vec<String>, x: String)
    ensures
        strings_view(final(v)@) == insert_sorted(strings_view(old(v)@), x@, by_self()),
{
    let ghost s = strings_view(v@);
    let mut i: usize = 0;
    while i < v.len()
        invariant
            s == strings_view(v@),
            i <= v.len(),
            forall|j: int| 0 <= j < i ==> !str_lt(by_self()(x@), by_self()(#[trigger] s[j])),
        ensures
            i <= v.len(),
            forall|j: int| 0 <= j < i ==> !str_lt(by_self()(x@), by_self()(#[trigger] s[j])),
            i < v.len() ==> str_lt(by_self()(x@), by_self()(s[i as int])),
        decreases v.len() - i,
    {
        if str_less(x.as_str(), v[i].as_str()) {
            break;
        }
        i = i + 1;
    }
    proof {
        lemma_insert_sorted_at(s, x@, by_self(), i as int);
    }
    let ghost xv = x@;
    v.insert(i, x);
    assert(strings_view(v@) =~= s.take(i as int) + seq![xv] + s.skip(i as int));
}

/// Stable sort of strings.
pub fn sort_strings(v: Vec<String>) -> (r: Vec<String>)
    ensures
        strings_view(r@) == sort_by_key(strings_view(v@), by_self()),
{
    let mut r: Vec<String> = Vec::new();
    let mut i: usize = 0;
    while i < v.len()
        invariant
            i <= v.len(),
            strings_view(r@) == sort_by_key(strings_view(v@.take(i as int)), by_self()),
        decreases v.len() - i,
    {
        let x = v[i].clone();
        assert(strings_view(v@.take(i + 1)).drop_last() =~= strings_view(v@.take(i as int)));
        insert_string(&mut r, x);
        i = i + 1;
    }
    assert(v@.take(v.len() as int) =~= v@);
    r
}

/// The strings joined by `sep`.
pub fn join_strings(v: &Vec<String>, sep: &str) -> (r: String)
    ensures
        r@ == join(strings_view(v@), sep@),
{
    let mut r = String::new();
    let mut i: usize = 0;
    while i < v.len()
        invariant
            i <= v.len(),
            r@ == join(strings_view(v@.take(i as int)), sep@),
        decreases v.len() - i,
    {
        assert(strings_view(v@.take(i + 1)).drop_last() =~= strings_view(v@.take(i as int)));
        if i > 0 {
            r.append(sep);
        }
        r.append(v[i].as_str());
        proof {
            if i == 0 {
                assert(strings_view(v@.take(1)) =~= seq![v@[0]@]);
            }
        }
        i = i + 1;
    }
    assert(v@.take(v.len() as int) =~= v@);
    r
}

} // verus!
