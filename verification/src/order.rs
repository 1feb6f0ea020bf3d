//! Alphabetical order: the comparison of two texts, and the stable sort of a
//! list by its keys.

use vstd::prelude::*;

verus! {

/// `a` comes no later than `b` in the order of `str`: at the first position
/// where they differ `a` holds the lower code point, or `a` ends first.
pub open spec fn text_le(a: Seq<char>, b: Seq<char>) -> bool
    decreases a.len(),
{
    if a.len() == 0 {
        true
    } else if b.len() == 0 {
        false
    } else if a[0] != b[0] {
        a[0] < b[0]
    } else {
        text_le(a.skip(1), b.skip(1))
    }
}

/// Of two texts one comes no later than the other.
pub proof fn lemma_text_le_total(a: Seq<char>, b: Seq<char>)
    ensures
        text_le(a, b) || text_le(b, a),
    decreases a.len(),
{
    if a.len() > 0 && b.len() > 0 {
        if a[0] == b[0] {
            lemma_text_le_total(a.skip(1), b.skip(1));
        }
    }
}

/// The order of texts is transitive.
pub proof fn lemma_text_le_trans(a: Seq<char>, b: Seq<char>, c: Seq<char>)
    requires
        text_le(a, b),
        text_le(b, c),
    ensures
        text_le(a, c),
    decreases a.len(),
{
    if a.len() > 0 && b.len() > 0 && c.len() > 0 && a[0] == b[0] && b[0] == c[0] {
        lemma_text_le_trans(a.skip(1), b.skip(1), c.skip(1));
    }
}

/// Two texts that each come no later than the other are the same text.
pub proof fn lemma_text_le_antisym(a: Seq<char>, b: Seq<char>)
    requires
        text_le(a, b),
        text_le(b, a),
    ensures
        a == b,
    decreases a.len(),
{
    if a.len() > 0 && b.len() > 0 {
        lemma_text_le_antisym(a.skip(1), b.skip(1));
        assert(a =~= seq![a[0]] + a.skip(1));
        assert(b =~= seq![b[0]] + b.skip(1));
    } else {
        assert(a =~= b);
    }
}

/// Whether `a` comes no later than `b`.
pub fn le(a: &Vec<char>, b: &Vec<char>) -> (r: bool)
    ensures
        r == text_le(a@, b@),
{
    let mut i: usize = 0;
    assert(a@.skip(0) == a@ && b@.skip(0) == b@);
    while i < a.len() && i < b.len()
        invariant
            i <= a.len(),
            i <= b.len(),
            text_le(a@, b@) == text_le(a@.skip(i as int), b@.skip(i as int)),
        decreases a.len() - i,
    {
        if a[i] != b[i] {
            return a[i] < b[i];
        }
        assert(a@.skip(i as int).skip(1) == a@.skip(i + 1));
        assert(b@.skip(i as int).skip(1) == b@.skip(i + 1));
        i = i + 1;
    }
    i == a.len()
}

/// Every text comes no later than itself.
pub proof fn lemma_text_le_refl(a: Seq<char>)
    ensures
        text_le(a, a),
    decreases a.len(),
{
    if a.len() > 0 {
        lemma_text_le_refl(a.skip(1));
    }
}

/// Two lists with the same members, each sorted by the same order, are the
/// same list, as long as the order never puts two members each before the
/// other, nor a member before itself.
pub proof fn lemma_sorted_lists_equal(a: Seq<int>, b: Seq<int>, before: spec_fn(int, int) -> bool)
    requires
        forall|i: int, j: int| 0 <= i < j < a.len() ==> before(#[trigger] a[i], #[trigger] a[j]),
        forall|i: int, j: int| 0 <= i < j < b.len() ==> before(#[trigger] b[i], #[trigger] b[j]),
        forall|x: int, y: int| !(#[trigger] before(x, y) && before(y, x)),
        forall|x: int| #[trigger] a.contains(x) <==> b.contains(x),
    ensures
        a == b,
{
    assert forall|i: int, j: int| 0 <= i < a.len() && 0 <= j < a.len() && i != j implies a[i]
        != a[j] by {
        if i < j {
            assert(before(a[i], a[j]));
        } else {
            assert(before(a[j], a[i]));
        }
    }
    assert forall|i: int, j: int| 0 <= i < b.len() && 0 <= j < b.len() && i != j implies b[i]
        != b[j] by {
        if i < j {
            assert(before(b[i], b[j]));
        } else {
            assert(before(b[j], b[i]));
        }
    }
    assert(a.to_set() =~= b.to_set());
    a.unique_seq_to_set();
    b.unique_seq_to_set();
    lemma_sorted_prefixes_equal(a, b, before, a.len() as int);
    assert(a =~= b);
}

/// Two sorted lists with the same members agree on their first `n` places.
proof fn lemma_sorted_prefixes_equal(
    a: Seq<int>,
    b: Seq<int>,
    before: spec_fn(int, int) -> bool,
    n: int,
)
    requires
        forall|i: int, j: int| 0 <= i < j < a.len() ==> before(#[trigger] a[i], #[trigger] a[j]),
        forall|i: int, j: int| 0 <= i < j < b.len() ==> before(#[trigger] b[i], #[trigger] b[j]),
        forall|x: int, y: int| !(#[trigger] before(x, y) && before(y, x)),
        forall|x: int| #[trigger] a.contains(x) <==> b.contains(x),
        a.len() == b.len(),
        0 <= n <= a.len(),
    ensures
        forall|i: int| 0 <= i < n ==> a[i] == b[i],
    decreases n,
{
    if n > 0 {
        lemma_sorted_prefixes_equal(a, b, before, n - 1);
        let i = n - 1;
        let x = a[i];
        let y = b[i];
        if x != y {
            assert(a.contains(x));
            assert(b.contains(x));
            let j = choose|j: int| 0 <= j < b.len() && b[j] == x;
            assert(b.contains(y));
            assert(a.contains(y));
            let k = choose|k: int| 0 <= k < a.len() && a[k] == y;
            if j < i {
                assert(a[j] == b[j]);
                assert(before(a[j], a[i]));
            }
            if k < i {
                assert(a[k] == b[k]);
                assert(before(b[k], b[i]));
            }
            assert(before(b[i], b[j]));
            assert(before(a[i], a[k]));
        }
    }
}

/// Position `a` is listed before position `b`: its key comes earlier, or the
/// keys are the same and it came first.
pub open spec fn key_before(keys: Seq<Seq<char>>, a: int, b: int) -> bool {
    if keys[a] == keys[b] {
        a < b
    } else {
        text_le(keys[a], keys[b])
    }
}

/// `order` with position `p` put in: after every position whose key comes no
/// later than that of `p`, before the others.
pub open spec fn place_by_key(order: Seq<int>, keys: Seq<Seq<char>>, p: int) -> Seq<int>
    decreases order.len(),
{
    if order.len() == 0 {
        seq![p]
    } else if text_le(keys[order.last()], keys[p]) {
        order.push(p)
    } else {
        place_by_key(order.drop_last(), keys, p).push(order.last())
    }
}

/// The positions below `n`, by ascending key, equal keys in input order.
pub open spec fn key_order_upto(keys: Seq<Seq<char>>, n: int) -> Seq<int>
    decreases n,
{
    if n <= 0 {
        Seq::empty()
    } else {
        place_by_key(key_order_upto(keys, n - 1), keys, n - 1)
    }
}

/// The positions of `keys` by ascending key, equal keys in input order: a
/// stable sort.
pub open spec fn key_order(keys: Seq<Seq<char>>) -> Seq<int> {
    key_order_upto(keys, keys.len() as int)
}

/// `r` lists every position below `n` once, each before all that it is
/// `key_before`.
pub open spec fn is_key_order(r: Seq<int>, keys: Seq<Seq<char>>, n: int) -> bool {
    &&& r.len() == n
    &&& forall|i: int| 0 <= i < r.len() ==> 0 <= #[trigger] r[i] < n
    &&& forall|i: int, j: int|
        0 <= i < j < r.len() ==> key_before(keys, #[trigger] r[i], #[trigger] r[j])
    &&& forall|p: int| 0 <= p < n ==> #[trigger] r.contains(p)
}

/// `order`, sorted, stays sorted when `p` is put in, and gains `p` alone.
proof fn lemma_place_by_key(order: Seq<int>, keys: Seq<Seq<char>>, p: int)
    requires
        forall|i: int| 0 <= i < order.len() ==> #[trigger] order[i] < p,
        forall|i: int, j: int|
            0 <= i < j < order.len() ==> key_before(keys, #[trigger] order[i], #[trigger] order[j]),
    ensures
        place_by_key(order, keys, p).len() == order.len() + 1,
        forall|i: int, j: int|
            0 <= i < j < place_by_key(order, keys, p).len() ==> key_before(
                keys,
                #[trigger] place_by_key(order, keys, p)[i],
                #[trigger] place_by_key(order, keys, p)[j],
            ),
        forall|x: int| #[trigger]
            place_by_key(order, keys, p).contains(x) <==> (order.contains(x) || x == p),
    decreases order.len(),
{
    let out = place_by_key(order, keys, p);
    if order.len() == 0 {
        assert(out[0] == p);
        assert forall|x: int| #[trigger] out.contains(x) <==> (order.contains(x) || x == p) by {
            if x == p {
                assert(out[0] == x);
            }
        }
    } else if text_le(keys[order.last()], keys[p]) {
        let last = order.len() - 1;
        assert forall|i: int, j: int| 0 <= i < j < out.len() implies key_before(
            keys,
            #[trigger] out[i],
            #[trigger] out[j],
        ) by {
            if j == order.len() {
                assert(out[i] == order[i]);
                if i < last {
                    assert(key_before(keys, order[i], order[last]));
                    if keys[order[i]] == keys[order[last]] {
                    } else {
                        lemma_text_le_trans(keys[order[i]], keys[order[last]], keys[p]);
                    }
                }
            } else {
                assert(out[i] == order[i] && out[j] == order[j]);
            }
        }
        assert forall|x: int| #[trigger] out.contains(x) <==> (order.contains(x) || x == p) by {
            if x == p {
                assert(out[order.len() as int] == x);
            }
            if order.contains(x) {
                let k = choose|k: int| 0 <= k < order.len() && order[k] == x;
                assert(out[k] == x);
            }
            if out.contains(x) {
                let k = choose|k: int| 0 <= k < out.len() && out[k] == x;
                if k < order.len() {
                    assert(order[k] == x);
                }
            }
        }
    } else {
        let front = order.drop_last();
        let last = order.last();
        lemma_text_le_total(keys[last], keys[p]);
        assert forall|i: int, j: int| 0 <= i < j < front.len() implies key_before(
            keys,
            #[trigger] front[i],
            #[trigger] front[j],
        ) by {
            assert(front[i] == order[i] && front[j] == order[j]);
        }
        assert forall|i: int| 0 <= i < front.len() implies #[trigger] front[i] < p by {
            assert(front[i] == order[i]);
        }
        lemma_place_by_key(front, keys, p);
        let inner = place_by_key(front, keys, p);
        assert(out == inner.push(last));
        assert forall|i: int, j: int| 0 <= i < j < out.len() implies key_before(
            keys,
            #[trigger] out[i],
            #[trigger] out[j],
        ) by {
            if j == inner.len() {
                assert(out[i] == inner[i]);
                assert(inner.contains(inner[i]));
                if inner[i] != p {
                    let k = choose|k: int| 0 <= k < front.len() && front[k] == inner[i];
                    assert(key_before(keys, order[k], order[order.len() - 1]));
                }
            } else {
                assert(out[i] == inner[i] && out[j] == inner[j]);
            }
        }
        assert forall|x: int| #[trigger] out.contains(x) <==> (order.contains(x) || x == p) by {
            if out.contains(x) {
                let k = choose|k: int| 0 <= k < out.len() && out[k] == x;
                if k < inner.len() {
                    assert(inner[k] == x);
                    assert(inner.contains(x));
                    if x != p {
                        let m = choose|m: int| 0 <= m < front.len() && front[m] == x;
                        assert(order[m] == x);
                    }
                } else {
                    assert(order[order.len() - 1] == x);
                }
            }
            if order.contains(x) {
                let k = choose|k: int| 0 <= k < order.len() && order[k] == x;
                if k < front.len() {
                    assert(front[k] == x);
                    assert(front.contains(x));
                    assert(inner.contains(x));
                    let m = choose|m: int| 0 <= m < inner.len() && inner[m] == x;
                    assert(out[m] == x);
                } else {
                    assert(out[inner.len() as int] == x);
                }
            }
            if x == p {
                assert(inner.contains(p));
                let m = choose|m: int| 0 <= m < inner.len() && inner[m] == x;
                assert(out[m] == x);
            }
        }
    }
}

/// The sorted order lists every position once, by ascending key, and
/// positions of equal keys keep their input order.
pub proof fn lemma_key_order_upto(keys: Seq<Seq<char>>, n: int)
    requires
        0 <= n <= keys.len(),
    ensures
        is_key_order(key_order_upto(keys, n), keys, n),
    decreases n,
{
    if n > 0 {
        lemma_key_order_upto(keys, n - 1);
        let before = key_order_upto(keys, n - 1);
        let r = key_order_upto(keys, n);
        lemma_place_by_key(before, keys, n - 1);
        assert forall|i: int| 0 <= i < r.len() implies 0 <= #[trigger] r[i] < n by {
            assert(r.contains(r[i]));
            if r[i] != n - 1 {
                let k = choose|k: int| 0 <= k < before.len() && before[k] == r[i];
            }
        }
        assert forall|p: int| 0 <= p < n implies #[trigger] r.contains(p) by {
            if p < n - 1 {
                assert(before.contains(p));
            }
        }
    }
}

/// The stable sort is the only list that `is_key_order` holds of.
pub proof fn lemma_key_order_unique(r: Seq<int>, keys: Seq<Seq<char>>)
    requires
        is_key_order(r, keys, keys.len() as int),
    ensures
        r == key_order(keys),
{
    let o = key_order(keys);
    lemma_key_order_upto(keys, keys.len() as int);
    let before = |x: int, y: int| key_before(keys, x, y);
    assert forall|x: int, y: int| !(#[trigger] before(x, y) && before(y, x)) by {
        if key_before(keys, x, y) && key_before(keys, y, x) {
            lemma_text_le_antisym(keys[x], keys[y]);
        }
    }
    assert forall|x: int| #[trigger] r.contains(x) <==> o.contains(x) by {
        if r.contains(x) {
            let k = choose|k: int| 0 <= k < r.len() && r[k] == x;
            assert(0 <= r[k] < keys.len());
        }
        if o.contains(x) {
            let k = choose|k: int| 0 <= k < o.len() && o[k] == x;
            assert(0 <= o[k] < keys.len());
        }
    }
    lemma_sorted_lists_equal(r, o, before);
}

/// `place_by_key` puts `p` at position `at`, where `at` parts the keys that
/// come no later than that of `p` from those that come later.
proof fn lemma_place_by_key_at(order: Seq<int>, keys: Seq<Seq<char>>, p: int, at: int)
    requires
        0 <= at <= order.len(),
        forall|k: int| at <= k < order.len() ==> !text_le(keys[#[trigger] order[k]], keys[p]),
        at > 0 ==> text_le(keys[order[at - 1]], keys[p]),
    ensures
        place_by_key(order, keys, p) == order.insert(at, p),
    decreases order.len(),
{
    if order.len() == 0 {
        assert(order.insert(at, p) =~= seq![p]);
    } else if at == order.len() {
        assert(order.insert(at, p) =~= order.push(p));
    } else {
        assert(!text_le(keys[order[order.len() - 1]], keys[p]));
        let front = order.drop_last();
        assert forall|k: int| at <= k < front.len() implies !text_le(
            keys[#[trigger] front[k]],
            keys[p],
        ) by {
            assert(front[k] == order[k]);
        }
        if at > 0 {
            assert(front[at - 1] == order[at - 1]);
        }
        lemma_place_by_key_at(front, keys, p, at);
        assert(front.insert(at, p).push(order.last()) =~= order.insert(at, p));
    }
}

/// The positions of `keys` by ascending key, equal keys in input order.
pub fn sort_positions(keys: &Vec<Vec<char>>) -> (r: Vec<usize>)
    ensures
        crate::score::ints(r@) == key_order(crate::text::views(keys@)),
        is_key_order(crate::score::ints(r@), crate::text::views(keys@), keys@.len() as int),
        r@.len() == keys@.len(),
        forall|i: int| 0 <= i < r@.len() ==> #[trigger] r@[i] < keys@.len(),
{
    let ghost ks = crate::text::views(keys@);
    let mut r: Vec<usize> = Vec::new();
    let mut n: usize = 0;
    assert(crate::score::ints(r@) =~= key_order_upto(ks, 0));
    while n < keys.len()
        invariant
            n <= keys.len(),
            ks == crate::text::views(keys@),
            crate::score::ints(r@) == key_order_upto(ks, n as int),
        decreases keys.len() - n,
    {
        proof {
            lemma_key_order_upto(ks, n as int);
        }
        let mut at: usize = r.len();
        assert forall|k: int| 0 <= k < r.len() implies #[trigger] r@[k] < n by {
            assert(crate::score::ints(r@)[k] == r@[k]);
        }
        while at > 0 && !le(&keys[r[at - 1]], &keys[n])
            invariant
                at <= r.len(),
                n < keys.len(),
                ks == crate::text::views(keys@),
                forall|k: int| 0 <= k < r.len() ==> #[trigger] r@[k] < n,
                forall|k: int|
                    at <= k < r.len() ==> !text_le(ks[#[trigger] r@[k] as int], ks[n as int]),
            decreases at,
        {
            at = at - 1;
        }
        proof {
            let order = crate::score::ints(r@);
            assert forall|k: int| at <= k < order.len() implies !text_le(
                ks[#[trigger] order[k]],
                ks[n as int],
            ) by {
                assert(order[k] == r@[k]);
            }
            if at > 0 {
                assert(order[at - 1] == r@[at - 1]);
            }
            lemma_place_by_key_at(order, ks, n as int, at as int);
            assert(crate::score::ints(r@.insert(at as int, n)) =~= order.insert(
                at as int,
                n as int,
            ));
        }
        r.insert(at, n);
        n = n + 1;
    }
    proof {
        lemma_key_order_upto(ks, keys@.len() as int);
        assert forall|i: int| 0 <= i < r@.len() implies #[trigger] r@[i] < keys@.len() by {
            assert(crate::score::ints(r@)[i] == r@[i]);
        }
    }
    r
}

} // verus!
