//! Stable sorting of item indices by lexicographic keys.
use vstd::prelude::*;

verus! {

/// A sort key: four numbers compared in order.
pub type Key = (u64, u64, u64, u64);

/// Strict lexicographic order on keys.
pub open spec fn key_lt(a: Key, b: Key) -> bool {
    ||| a.0 < b.0
    ||| a.0 == b.0 && a.1 < b.1
    ||| a.0 == b.0 && a.1 == b.1 && a.2 < b.2
    ||| a.0 == b.0 && a.1 == b.1 && a.2 == b.2 && a.3 < b.3
}

/// Item `x` comes before item `y`: smaller key, or equal keys and `x`
/// earlier (which is what makes the sort stable).
pub open spec fn before(keys: Seq<Key>, x: usize, y: usize) -> bool {
    key_lt(keys[x as int], keys[y as int]) || (keys[x as int] == keys[y as int] && x < y)
}

/// `s` is in strictly increasing `before` order.
pub open spec fn sorted_by(keys: Seq<Key>, s: Seq<usize>) -> bool {
    forall|p: int, q: int| 0 <= p < q < s.len() ==> before(keys, #[trigger] s[p], #[trigger] s[q])
}

/// `s` is strictly increasing.
pub open spec fn increasing(s: Seq<usize>) -> bool {
    forall|p: int, q: int| 0 <= p < q < s.len() ==> #[trigger] s[p] < #[trigger] s[q]
}

pub fn key_less(a: &Key, b: &Key) -> (r: bool)
    ensures
        r == key_lt(*a, *b),
{
    a.0 < b.0 || (a.0 == b.0 && a.1 < b.1) || (a.0 == b.0 && a.1 == b.1 && a.2 < b.2) || (a.0
        == b.0 && a.1 == b.1 && a.2 == b.2 && a.3 < b.3)
}

/// The set of a sequence with one more element.
pub proof fn lemma_push_to_set<A>(s: Seq<A>, x: A)
    ensures
        s.push(x).to_set() == s.to_set().insert(x),
{
    assert forall|y: A| s.push(x).to_set().contains(y) implies s.to_set().insert(x).contains(y) by {
        let k = choose|k: int| 0 <= k < s.push(x).len() && s.push(x)[k] == y;
        if k < s.len() {
            assert(s[k] == y);
        }
    }
    assert forall|y: A| s.to_set().insert(x).contains(y) implies s.push(x).to_set().contains(y) by {
        if y == x {
            assert(s.push(x)[s.len() as int] == x);
        } else {
            let k = choose|k: int| 0 <= k < s.len() && s[k] == y;
            assert(s.push(x)[k] == y);
        }
    }
    assert(s.push(x).to_set() =~= s.to_set().insert(x));
}

/// The items reordered by key, ties kept in input order.
pub fn sort_items(items: &Vec<usize>, keys: &Vec<Key>) -> (r: Vec<usize>)
    requires
        increasing(items@),
        forall|i: int| 0 <= i < items.len() ==> #[trigger] items@[i] < keys.len(),
    ensures
        r.len() == items.len(),
        r@.to_set() == items@.to_set(),
        sorted_by(keys@, r@),
{
    let mut r: Vec<usize> = Vec::new();
    let mut i: usize = 0;
    while i < items.len()
        invariant
            i <= items.len(),
            increasing(items@),
            forall|k: int| 0 <= k < items.len() ==> #[trigger] items@[k] < keys.len(),
            r.len() == i,
            r@.to_set() == items@.take(i as int).to_set(),
            sorted_by(keys@, r@),
            forall|p: int| 0 <= p < r.len() ==> #[trigger] r@[p] < keys.len(),
            i < items.len() ==> forall|p: int| 0 <= p < r.len() ==> #[trigger] r@[p] < items@[i as int],
        decreases items.len() - i,
    {
        let x = items[i];
        let mut pos: usize = 0;
        while pos < r.len() && !key_less(&keys[x], &keys[r[pos]])
            invariant
                pos <= r.len(),
                x < keys.len(),
                forall|p: int| 0 <= p < r.len() ==> #[trigger] r@[p] < keys.len(),
                forall|p: int| 0 <= p < pos ==> !key_lt(keys@[x as int], keys@[#[trigger] r@[p] as int]),
            decreases r.len() - pos,
        {
            pos = pos + 1;
        }
        let ghost old_r = r@;
        r.insert(pos, x);
        proof {
            assert(r@ =~= old_r.take(pos as int).push(x) + old_r.skip(pos as int));
            assert forall|p: int, q: int| 0 <= p < q < r@.len() implies before(
                keys@,
                #[trigger] r@[p],
                #[trigger] r@[q],
            ) by {
                if q < pos {
                    assert(r@[p] == old_r[p] && r@[q] == old_r[q]);
                } else if q == pos {
                    assert(r@[p] == old_r[p]);
                    assert(old_r[p] < x);
                } else if p == pos {
                    assert(r@[q] == old_r[q - 1]);
                    assert(key_lt(keys@[x as int], keys@[old_r[pos as int] as int]));
                    if q - 1 > pos {
                        assert(before(keys@, old_r[pos as int], old_r[q - 1]));
                    }
                } else if p < pos {
                    assert(r@[p] == old_r[p] && r@[q] == old_r[q - 1]);
                } else {
                    assert(r@[p] == old_r[p - 1] && r@[q] == old_r[q - 1]);
                }
            }
            assert(items@.take(i + 1) =~= items@.take(i as int).push(x));
            lemma_push_to_set(items@.take(i as int), x);
            assert(r@.to_set() =~= old_r.to_set().insert(x)) by {
                assert forall|y: usize| r@.to_set().contains(y) implies old_r.to_set().insert(
                    x,
                ).contains(y) by {
                    let k = choose|k: int| 0 <= k < r@.len() && r@[k] == y;
                    if k < pos {
                        assert(old_r[k] == y);
                    } else if k > pos {
                        assert(old_r[k - 1] == y);
                    }
                }
                assert forall|y: usize| old_r.to_set().insert(x).contains(y) implies r@.to_set().contains(
                    y,
                ) by {
                    if y == x {
                        assert(r@[pos as int] == x);
                    } else {
                        let k = choose|k: int| 0 <= k < old_r.len() && old_r[k] == y;
                        if k < pos {
                            assert(r@[k] == y);
                        } else {
                            assert(r@[k + 1] == y);
                        }
                    }
                }
            }
            if i + 1 < items.len() {
                assert forall|p: int| 0 <= p < r.len() implies #[trigger] r@[p] < items@[i + 1] by {
                    if p < pos {
                        assert(r@[p] == old_r[p]);
                    } else if p > pos {
                        assert(r@[p] == old_r[p - 1]);
                    }
                    assert(items@[i as int] < items@[i + 1]);
                }
            }
        }
        i = i + 1;
    }
    assert(items@.take(items.len() as int) =~= items@);
    r
}

/// The indices `0..n` in order.
pub fn range_items(n: usize) -> (r: Vec<usize>)
    ensures
        r.len() == n,
        forall|i: int| 0 <= i < n ==> #[trigger] r@[i] == i,
        increasing(r@),
{
    let mut r: Vec<usize> = Vec::new();
    let mut i: usize = 0;
    while i < n
        invariant
            i <= n,
            r.len() == i,
            forall|k: int| 0 <= k < i ==> #[trigger] r@[k] == k,
        decreases n - i,
    {
        r.push(i);
        i = i + 1;
    }
    r
}

// ------------------------------------------------------------ by name

/// Strict lexicographic order on texts, character by character (the
/// order of `str`'s comparison).
pub open spec fn lex_lt(a: Seq<char>, b: Seq<char>) -> bool
    decreases a.len(),
{
    if a.len() == 0 {
        b.len() > 0
    } else if b.len() == 0 {
        false
    } else if a[0] != b[0] {
        a[0] < b[0]
    } else {
        lex_lt(a.drop_first(), b.drop_first())
    }
}

proof fn lemma_lex_trans(a: Seq<char>, b: Seq<char>, c: Seq<char>)
    requires
        lex_lt(a, b),
        lex_lt(b, c),
    ensures
        lex_lt(a, c),
    decreases a.len(),
{
    if a.len() > 0 && b.len() > 0 && c.len() > 0 && a[0] == b[0] && b[0] == c[0] {
        lemma_lex_trans(a.drop_first(), b.drop_first(), c.drop_first());
    }
}

proof fn lemma_lex_total(a: Seq<char>, b: Seq<char>)
    ensures
        lex_lt(a, b) || lex_lt(b, a) || a == b,
        !(lex_lt(a, b) && lex_lt(b, a)),
    decreases a.len(),
{
    if a.len() > 0 && b.len() > 0 && a[0] == b[0] {
        lemma_lex_total(a.drop_first(), b.drop_first());
        if a.drop_first() == b.drop_first() {
            assert(a =~= seq![a[0]] + a.drop_first());
            assert(b =~= seq![b[0]] + b.drop_first());
        }
    } else if a.len() == 0 && b.len() == 0 {
        assert(a =~= b);
    }
}

/// Whether `a` comes before `b` in lexicographic order.
pub fn str_lt(a: &str, b: &str) -> (r: bool)
    ensures
        r == lex_lt(a@, b@),
{
    let x = crate::text::chars_of(a);
    let y = crate::text::chars_of(b);
    let mut i: usize = 0;
    assert(x@.skip(0) =~= x@);
    assert(y@.skip(0) =~= y@);
    while i < x.len() && i < y.len()
        invariant
            i <= x.len(),
            i <= y.len(),
            x@ == a@,
            y@ == b@,
            lex_lt(a@, b@) == lex_lt(x@.skip(i as int), y@.skip(i as int)),
            forall|k: int| 0 <= k < i ==> x@[k] == y@[k],
        decreases x.len() - i,
    {
        let ghost xs = x@.skip(i as int);
        let ghost ys = y@.skip(i as int);
        assert(xs[0] == x@[i as int]);
        assert(ys[0] == y@[i as int]);
        if x[i] != y[i] {
            return x[i] < y[i];
        }
        assert(xs.drop_first() =~= x@.skip(i + 1));
        assert(ys.drop_first() =~= y@.skip(i + 1));
        i = i + 1;
    }
    let ghost xs = x@.skip(i as int);
    let ghost ys = y@.skip(i as int);
    i < y.len()
}

/// Item `x` comes before item `y`: a smaller name, or the same name and
/// `x` earlier.
pub open spec fn name_before(names: Seq<Seq<char>>, x: usize, y: usize) -> bool {
    lex_lt(names[x as int], names[y as int]) || (names[x as int] == names[y as int] && x < y)
}

/// `s` is in strictly increasing `name_before` order.
pub open spec fn sorted_by_name(names: Seq<Seq<char>>, s: Seq<usize>) -> bool {
    forall|p: int, q: int| 0 <= p < q < s.len() ==> name_before(names, #[trigger] s[p], #[trigger] s[q])
}

/// The items reordered by name, ties kept in input order.
pub fn sort_items_by_name(items: &Vec<usize>, names: &Vec<String>) -> (r: Vec<usize>)
    requires
        increasing(items@),
        forall|i: int| 0 <= i < items.len() ==> #[trigger] items@[i] < names.len(),
    ensures
        r.len() == items.len(),
        r@.to_set() == items@.to_set(),
        sorted_by_name(crate::model::strs(names@), r@),
{
    let ghost ns = crate::model::strs(names@);
    let mut r: Vec<usize> = Vec::new();
    let mut i: usize = 0;
    while i < items.len()
        invariant
            i <= items.len(),
            ns == crate::model::strs(names@),
            increasing(items@),
            forall|k: int| 0 <= k < items.len() ==> #[trigger] items@[k] < names.len(),
            r.len() == i,
            r@.to_set() == items@.take(i as int).to_set(),
            sorted_by_name(ns, r@),
            forall|p: int| 0 <= p < r.len() ==> #[trigger] r@[p] < names.len(),
            i < items.len() ==> forall|p: int| 0 <= p < r.len() ==> #[trigger] r@[p] < items@[i as int],
        decreases items.len() - i,
    {
        let x = items[i];
        let mut pos: usize = 0;
        while pos < r.len() && !str_lt(names[x].as_str(), names[r[pos]].as_str())
            invariant
                pos <= r.len(),
                x < names.len(),
                ns == crate::model::strs(names@),
                forall|p: int| 0 <= p < r.len() ==> #[trigger] r@[p] < names.len(),
                forall|p: int| 0 <= p < pos ==> !lex_lt(ns[x as int], ns[#[trigger] r@[p] as int]),
            decreases r.len() - pos,
        {
            assert(ns[x as int] == names@[x as int]@);
            assert(ns[r@[pos as int] as int] == names@[r@[pos as int] as int]@);
            pos = pos + 1;
        }
        proof {
            if pos < r.len() {
                assert(ns[x as int] == names@[x as int]@);
                assert(ns[r@[pos as int] as int] == names@[r@[pos as int] as int]@);
            }
        }
        let ghost old_r = r@;
        r.insert(pos, x);
        proof {
            assert(r@ =~= old_r.take(pos as int).push(x) + old_r.skip(pos as int));
            assert forall|p: int, q: int| 0 <= p < q < r@.len() implies name_before(
                ns,
                #[trigger] r@[p],
                #[trigger] r@[q],
            ) by {
                if q < pos {
                    assert(r@[p] == old_r[p] && r@[q] == old_r[q]);
                } else if q == pos {
                    assert(r@[p] == old_r[p]);
                    assert(old_r[p] < x);
                    lemma_lex_total(ns[x as int], ns[old_r[p] as int]);
                } else if p == pos {
                    assert(r@[q] == old_r[q - 1]);
                    let a = ns[x as int];
                    let b = ns[old_r[pos as int] as int];
                    let c = ns[old_r[q - 1] as int];
                    assert(lex_lt(a, b));
                    if q - 1 > pos {
                        assert(name_before(ns, old_r[pos as int], old_r[q - 1]));
                        if lex_lt(b, c) {
                            lemma_lex_trans(a, b, c);
                        }
                    }
                } else if p < pos {
                    assert(r@[p] == old_r[p] && r@[q] == old_r[q - 1]);
                } else {
                    assert(r@[p] == old_r[p - 1] && r@[q] == old_r[q - 1]);
                }
            }
            assert(items@.take(i + 1) =~= items@.take(i as int).push(x));
            lemma_push_to_set(items@.take(i as int), x);
            assert(r@.to_set() =~= old_r.to_set().insert(x)) by {
                assert forall|y: usize| r@.to_set().contains(y) implies old_r.to_set().insert(
                    x,
                ).contains(y) by {
                    let k = choose|k: int| 0 <= k < r@.len() && r@[k] == y;
                    if k < pos {
                        assert(old_r[k] == y);
                    } else if k > pos {
                        assert(old_r[k - 1] == y);
                    }
                }
                assert forall|y: usize| old_r.to_set().insert(x).contains(y) implies r@.to_set().contains(
                    y,
                ) by {
                    if y == x {
                        assert(r@[pos as int] == x);
                    } else {
                        let k = choose|k: int| 0 <= k < old_r.len() && old_r[k] == y;
                        if k < pos {
                            assert(r@[k] == y);
                        } else {
                            assert(r@[k + 1] == y);
                        }
                    }
                }
            }
            if i + 1 < items.len() {
                assert forall|p: int| 0 <= p < r.len() implies #[trigger] r@[p] < items@[i + 1] by {
                    if p < pos {
                        assert(r@[p] == old_r[p]);
                    } else if p > pos {
                        assert(r@[p] == old_r[p - 1]);
                    }
                    assert(items@[i as int] < items@[i + 1]);
                }
            }
        }
        i = i + 1;
    }
    assert(items@.take(items.len() as int) =~= items@);
    r
}

} // verus!
