//! Ordering strings as `String`'s `Ord` does, and stable sorting by a
//! string key.
use vstd::prelude::*;
use crate::text::chars_of;

verus! {

/// `a` sorts before `b` as `String`'s `Ord` orders them: by the first
/// differing character's code point, a proper prefix first.
pub open spec fn text_lt(a: Seq<char>, b: Seq<char>) -> bool
    decreases a.len(),
{
    if a.len() == 0 {
        b.len() > 0
    } else if b.len() == 0 {
        false
    } else if a[0] != b[0] {
        (a[0] as int) < (b[0] as int)
    } else {
        text_lt(a.skip(1), b.skip(1))
    }
}

/// No string sorts before itself.
pub proof fn lemma_text_lt_irreflexive(a: Seq<char>)
    ensures
        !text_lt(a, a),
    decreases a.len(),
{
    if a.len() > 0 {
        lemma_text_lt_irreflexive(a.skip(1));
    }
}

/// Of two different strings, one sorts before the other, and not both.
pub proof fn lemma_text_lt_total(a: Seq<char>, b: Seq<char>)
    ensures
        a != b ==> (text_lt(a, b) || text_lt(b, a)),
        !(text_lt(a, b) && text_lt(b, a)),
    decreases a.len(),
{
    if a.len() > 0 && b.len() > 0 {
        lemma_text_lt_total(a.skip(1), b.skip(1));
        if a[0] == b[0] && a != b {
            assert(a =~= seq![a[0]] + a.skip(1));
            assert(b =~= seq![b[0]] + b.skip(1));
        }
        if a[0] != b[0] {
            assert((a[0] as int) != (b[0] as int));
        }
    } else if a.len() == 0 && b.len() == 0 {
        assert(a =~= b);
    }
}

/// Sorting before is transitive.
pub proof fn lemma_text_lt_transitive(a: Seq<char>, b: Seq<char>, c: Seq<char>)
    requires
        text_lt(a, b),
        text_lt(b, c),
    ensures
        text_lt(a, c),
    decreases a.len(),
{
    if a.len() > 0 && b.len() > 0 && c.len() > 0 {
        if a[0] == b[0] && b[0] == c[0] {
            lemma_text_lt_transitive(a.skip(1), b.skip(1), c.skip(1));
        }
    }
}

/// Whether `a` sorts before `b`, as `String`'s `Ord` orders them.
pub fn text_less(a: &str, b: &str) -> (r: bool)
    ensures
        r == text_lt(a@, b@),
{
    let x = chars_of(a);
    let y = chars_of(b);
    let mut i: usize = 0;
    assert(a@.skip(0) =~= a@);
    assert(b@.skip(0) =~= b@);
    while i < x.len() && i < y.len() && x[i] == y[i]
        invariant
            i <= x@.len(),
            i <= y@.len(),
            x@ == a@,
            y@ == b@,
            text_lt(a@, b@) == text_lt(a@.skip(i as int), b@.skip(i as int)),
        decreases x@.len() - i,
    {
        assert(a@.skip(i as int).skip(1) =~= a@.skip(i + 1));
        assert(b@.skip(i as int).skip(1) =~= b@.skip(i + 1));
        i += 1;
    }
    let ghost sa = a@.skip(i as int);
    let ghost sb = b@.skip(i as int);
    if i == x.len() {
        assert(sa.len() == 0);
        i < y.len()
    } else if i == y.len() {
        assert(sa.len() > 0 && sb.len() == 0);
        false
    } else {
        assert(sa[0] == x@[i as int] && sb[0] == y@[i as int]);
        assert(sa[0] != sb[0]);
        x[i] < y[i]
    }
}

/// `a` comes before `b` when ordered by key text, ties broken by index:
/// the order a stable sort by key leaves.
pub open spec fn text_before(keys: Seq<Seq<char>>, a: int, b: int) -> bool {
    text_lt(keys[a], keys[b]) || (keys[a] == keys[b] && a < b)
}

/// `order` lists each index of `keys` once, in the order a stable sort by
/// key text leaves them.
pub open spec fn is_text_order(keys: Seq<Seq<char>>, order: Seq<usize>) -> bool {
    &&& order.len() == keys.len()
    &&& forall|p: int| 0 <= p < order.len() ==> (#[trigger] order[p]) < keys.len()
    &&& forall|j: usize| j < keys.len() ==> #[trigger] order.contains(j)
    &&& forall|p: int, q: int|
        0 <= p < q < order.len() ==> text_before(keys, #[trigger] order[p] as int, #[trigger] order[q] as int)
}

/// The stable order by key text; there is exactly one.
pub open spec fn text_order_of(keys: Seq<Seq<char>>) -> Seq<usize> {
    choose|o: Seq<usize>| is_text_order(keys, o)
}

proof fn lemma_text_before_asym(keys: Seq<Seq<char>>, a: int, b: int)
    ensures
        !(text_before(keys, a, b) && text_before(keys, b, a)),
        !text_before(keys, a, a),
{
    lemma_text_lt_total(keys[a], keys[b]);
    lemma_text_lt_irreflexive(keys[a]);
    lemma_text_lt_irreflexive(keys[b]);
}

proof fn lemma_text_order_prefix(keys: Seq<Seq<char>>, a: Seq<usize>, b: Seq<usize>, p: int)
    requires
        is_text_order(keys, a),
        is_text_order(keys, b),
        0 <= p <= a.len(),
    ensures
        forall|q: int| 0 <= q < p ==> a[q] == b[q],
    decreases p,
{
    if p > 0 {
        lemma_text_order_prefix(keys, a, b, p - 1);
        let k = p - 1;
        let x = a[k];
        let y = b[k];
        if x != y {
            assert(a.contains(y));
            assert(b.contains(x));
            let qa = choose|q: int| 0 <= q < a.len() && a[q] == y;
            let qb = choose|q: int| 0 <= q < b.len() && b[q] == x;
            if qa < k {
                assert(a[qa] == b[qa]);
                lemma_text_before_asym(keys, b[qa] as int, b[k] as int);
                assert(text_before(keys, b[qa] as int, b[k] as int));
            }
            if qb < k {
                assert(a[qb] == b[qb]);
                lemma_text_before_asym(keys, a[qb] as int, a[k] as int);
                assert(text_before(keys, a[qb] as int, a[k] as int));
            }
            assert(text_before(keys, a[k] as int, a[qa] as int));
            assert(text_before(keys, b[k] as int, b[qb] as int));
            lemma_text_before_asym(keys, x as int, y as int);
        }
    }
}

/// A list can be put in stable order by key text in one way only.
pub proof fn lemma_text_order_unique(keys: Seq<Seq<char>>, a: Seq<usize>, b: Seq<usize>)
    requires
        is_text_order(keys, a),
        is_text_order(keys, b),
    ensures
        a == b,
{
    lemma_text_order_prefix(keys, a, b, a.len() as int);
    assert(a =~= b);
}

/// The texts of a list of strings.
pub open spec fn texts(v: Seq<String>) -> Seq<Seq<char>> {
    v.map_values(|s: String| s@)
}

/// The indices of `keys` in the order of a stable sort by key text.
pub fn text_order(keys: &Vec<String>) -> (r: Vec<usize>)
    ensures
        is_text_order(texts(keys@), r@),
        r@ == text_order_of(texts(keys@)),
{
    let ghost k = texts(keys@);
    let n = keys.len();
    let mut r: Vec<usize> = Vec::new();
    let mut i: usize = 0;
    while i < n
        invariant
            n == keys@.len(),
            k == texts(keys@),
            i <= n,
            r@.len() == i,
            forall|p: int| 0 <= p < r@.len() ==> (#[trigger] r@[p]) < i,
            forall|j: usize| j < i ==> #[trigger] r@.contains(j),
            forall|p: int, q: int|
                0 <= p < q < r@.len() ==> text_before(k, #[trigger] r@[p] as int, #[trigger] r@[q] as int),
        decreases n - i,
    {
        let mut pos: usize = 0;
        let mut found = false;
        while pos < r.len() && !found
            invariant
                pos <= r@.len(),
                r@.len() == i,
                i < n == keys@.len(),
                k == texts(keys@),
                forall|p: int| 0 <= p < r@.len() ==> (#[trigger] r@[p]) < i,
                found ==> pos < r@.len() && text_lt(k[i as int], k[r@[pos as int] as int]),
                forall|q: int| 0 <= q < pos && !(found && q == pos) ==> !text_lt(k[i as int], k[#[trigger] r@[q] as int]),
            decreases r@.len() - pos + (if found { 0int } else { 1int }),
        {
            if text_less(keys[i].as_str(), keys[r[pos]].as_str()) {
                found = true;
            } else {
                pos += 1;
            }
        }
        let ghost old_r = r@;
        r.insert(pos, i);
        proof {
            old_r.insert_ensures(pos as int, i);
            assert forall|p: int| 0 <= p < r@.len() implies (#[trigger] r@[p]) < i + 1 by {
                if p < pos {
                    assert(r@[p] == old_r[p]);
                } else if p > pos {
                    assert(r@[p] == old_r[p - 1]);
                }
            }
            assert forall|j: usize| j < i + 1 implies #[trigger] r@.contains(j) by {
                if j == i {
                    assert(r@[pos as int] == i);
                } else {
                    assert(old_r.contains(j));
                    let w = choose|w: int| 0 <= w < old_r.len() && old_r[w] == j;
                    if w < pos {
                        assert(r@[w] == old_r[w]);
                    } else {
                        assert(r@[w + 1] == old_r[w]);
                    }
                }
            }
            assert forall|p: int, q: int| 0 <= p < q < r@.len() implies text_before(
                k,
                #[trigger] r@[p] as int,
                #[trigger] r@[q] as int,
            ) by {
                if q < pos {
                    assert(r@[p] == old_r[p] && r@[q] == old_r[q]);
                } else if q == pos {
                    assert(r@[p] == old_r[p]);
                    assert(old_r[p] < i);
                    assert(!text_lt(k[i as int], k[old_r[p] as int]));
                    lemma_text_lt_total(k[i as int], k[old_r[p] as int]);
                } else if p > pos {
                    assert(r@[p] == old_r[p - 1] && r@[q] == old_r[q - 1]);
                } else if p == pos {
                    assert(r@[q] == old_r[q - 1]);
                    assert(found);
                    if q - 1 > pos as int {
                        assert(text_before(k, old_r[pos as int] as int, old_r[q - 1] as int));
                        if text_lt(k[old_r[pos as int] as int], k[old_r[q - 1] as int]) {
                            lemma_text_lt_transitive(k[i as int], k[old_r[pos as int] as int], k[old_r[q - 1] as int]);
                        }
                    }
                } else {
                    assert(r@[p] == old_r[p]);
                    assert(r@[q] == old_r[q - 1]);
                    assert(text_before(k, old_r[p] as int, old_r[q - 1] as int));
                }
            }
        }
        i += 1;
    }
    proof {
        assert(is_text_order(k, r@));
        lemma_text_order_unique(k, r@, text_order_of(k));
    }
    r
}

} // verus!
