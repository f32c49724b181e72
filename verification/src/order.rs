//! Sorting by byte strings.
use vstd::prelude::*;

verus! {

/// Lexicographic order of byte strings: the first byte that differs decides,
/// and a proper prefix comes first.
pub open spec fn bytes_lt(a: Seq<u8>, b: Seq<u8>) -> bool
    decreases a.len(),
{
    if b.len() == 0 {
        false
    } else if a.len() == 0 {
        true
    } else if a[0] != b[0] {
        a[0] < b[0]
    } else {
        bytes_lt(a.skip(1), b.skip(1))
    }
}

/// The keys as byte sequences.
pub open spec fn keys_of(keys: Seq<Vec<u8>>) -> Seq<Seq<u8>> {
    keys.map_values(|k: Vec<u8>| k@)
}

/// Whether index `i` comes before index `j`: by key, and by position where the
/// keys are equal.
pub open spec fn comes_before(keys: Seq<Seq<u8>>, i: int, j: int) -> bool {
    bytes_lt(keys[i], keys[j]) || (keys[i] == keys[j] && i < j)
}

/// Whether `order` lists the indices from `lo` up to `hi`, each once, in the
/// order of their keys, equal keys by position.
pub open spec fn is_order(keys: Seq<Seq<u8>>, lo: int, hi: int, order: Seq<usize>) -> bool {
    &&& order.len() == hi - lo
    &&& forall|k: int| 0 <= k < order.len() ==> lo <= #[trigger] order[k] < hi
    &&& forall|i: usize| lo <= i < hi ==> order.contains(i)
    &&& forall|k: int, l: int|
        0 <= k < l < order.len() ==> comes_before(
            keys,
            #[trigger] order[k] as int,
            #[trigger] order[l] as int,
        )
}

proof fn lemma_lt_transitive(a: Seq<u8>, b: Seq<u8>, c: Seq<u8>)
    requires
        bytes_lt(a, b),
        bytes_lt(b, c),
    ensures
        bytes_lt(a, c),
    decreases a.len(),
{
    if a.len() > 0 && a[0] == b[0] && b[0] == c[0] {
        lemma_lt_transitive(a.skip(1), b.skip(1), c.skip(1));
    }
}

proof fn lemma_lt_total(a: Seq<u8>, b: Seq<u8>)
    ensures
        bytes_lt(a, b) || a == b || bytes_lt(b, a),
    decreases a.len(),
{
    if a.len() == 0 && b.len() == 0 {
        assert(a =~= b);
    } else if a.len() > 0 && b.len() > 0 && a[0] == b[0] {
        lemma_lt_total(a.skip(1), b.skip(1));
        if a.skip(1) == b.skip(1) {
            assert forall|i: int| 0 <= i < a.len() implies a[i] == b[i] by {
                if i > 0 {
                    assert(a.skip(1)[i - 1] == b.skip(1)[i - 1]);
                }
            }
            assert(a.len() == a.skip(1).len() + 1);
            assert(b.len() == b.skip(1).len() + 1);
            assert(a =~= b);
        }
    }
}

proof fn lemma_before_transitive(keys: Seq<Seq<u8>>, i: int, j: int, k: int)
    requires
        comes_before(keys, i, j),
        comes_before(keys, j, k),
    ensures
        comes_before(keys, i, k),
{
    if bytes_lt(keys[i], keys[j]) && bytes_lt(keys[j], keys[k]) {
        lemma_lt_transitive(keys[i], keys[j], keys[k]);
    }
}

/// Whether `a` comes before `b` as byte strings.
pub fn bytes_less(a: &[u8], b: &[u8]) -> (res: bool)
    ensures
        res == bytes_lt(a@, b@),
{
    let mut i: usize = 0;
    proof {
        assert(a@.skip(0) =~= a@);
        assert(b@.skip(0) =~= b@);
    }
    while i < a.len() && i < b.len()
        invariant
            i <= a@.len(),
            i <= b@.len(),
            bytes_lt(a@, b@) == bytes_lt(a@.skip(i as int), b@.skip(i as int)),
        decreases a@.len() - i,
    {
        if a[i] != b[i] {
            return a[i] < b[i];
        }
        proof {
            assert(a@.skip(i as int).skip(1) =~= a@.skip(i + 1));
            assert(b@.skip(i as int).skip(1) =~= b@.skip(i + 1));
        }
        i += 1;
    }
    i < b.len()
}

/// Merges two orders of adjacent ranges.
fn merge(keys: &Vec<Vec<u8>>, lo: usize, mid: usize, hi: usize, a: &Vec<usize>, b: &Vec<usize>) -> (res: Vec<
    usize,
>)
    requires
        lo <= mid <= hi <= keys@.len(),
        is_order(keys_of(keys@), lo as int, mid as int, a@),
        is_order(keys_of(keys@), mid as int, hi as int, b@),
    ensures
        is_order(keys_of(keys@), lo as int, hi as int, res@),
{
    let ghost ks = keys_of(keys@);
    let mut out: Vec<usize> = Vec::new();
    let mut i: usize = 0;
    let mut j: usize = 0;
    while i < a.len() || j < b.len()
        invariant
            ks == keys_of(keys@),
            lo <= mid <= hi <= keys@.len(),
            is_order(ks, lo as int, mid as int, a@),
            is_order(ks, mid as int, hi as int, b@),
            i <= a@.len(),
            j <= b@.len(),
            out@.len() == i + j,
            forall|k: int| 0 <= k < out@.len() ==> lo <= #[trigger] out@[k] < hi,
            forall|k: int| 0 <= k < i ==> out@.contains(#[trigger] a@[k]),
            forall|k: int| 0 <= k < j ==> out@.contains(#[trigger] b@[k]),
            forall|k: int, l: int|
                0 <= k < l < out@.len() ==> comes_before(
                    ks,
                    #[trigger] out@[k] as int,
                    #[trigger] out@[l] as int,
                ),
            forall|k: int, l: int|
                0 <= k < out@.len() && i <= l < a@.len() ==> comes_before(
                    ks,
                    #[trigger] out@[k] as int,
                    #[trigger] a@[l] as int,
                ),
            forall|k: int, l: int|
                0 <= k < out@.len() && j <= l < b@.len() ==> comes_before(
                    ks,
                    #[trigger] out@[k] as int,
                    #[trigger] b@[l] as int,
                ),
        decreases a@.len() - i + b@.len() - j,
    {
        let from_a = if i == a.len() {
            false
        } else if j == b.len() {
            true
        } else {
            !bytes_less(keys[b[j]].as_slice(), keys[a[i]].as_slice())
        };
        let ghost before = out@;
        let next: usize = if from_a {
            a[i]
        } else {
            b[j]
        };
        proof {
            if i < a@.len() && j < b@.len() {
                let x = a@[i as int] as int;
                let y = b@[j as int] as int;
                assert(ks[x] == keys@[x]@);
                assert(ks[y] == keys@[y]@);
                lemma_lt_total(ks[x], ks[y]);
                if from_a {
                    assert(comes_before(ks, x, y));
                } else {
                    assert(comes_before(ks, y, x));
                }
            }
            // The chosen index comes before all that is left.
            assert forall|l: int|
                (if from_a {
                    i + 1
                } else {
                    i as int
                }) <= l < a@.len() implies comes_before(
                ks,
                next as int,
                #[trigger] a@[l] as int,
            ) by {
                if !from_a && l > i {
                    lemma_before_transitive(ks, next as int, a@[i as int] as int, a@[l] as int);
                }
            }
            assert forall|l: int|
                (if from_a {
                    j as int
                } else {
                    j + 1
                }) <= l < b@.len() implies comes_before(
                ks,
                next as int,
                #[trigger] b@[l] as int,
            ) by {
                if from_a && l > j {
                    lemma_before_transitive(ks, next as int, b@[j as int] as int, b@[l] as int);
                }
            }
        }
        out.push(next);
        proof {
            assert forall|x: usize| before.contains(x) implies out@.contains(x) by {
                let k = choose|k: int| 0 <= k < before.len() && before[k] == x;
                assert(out@[k] == x);
            }
            assert(out@[before.len() as int] == next);
            assert(out@.contains(next));
        }
        if from_a {
            i += 1;
        } else {
            j += 1;
        }
    }
    proof {
        assert forall|x: usize| lo <= x < hi implies out@.contains(x) by {
            if x < mid {
                assert(a@.contains(x));
                let k = choose|k: int| 0 <= k < a@.len() && a@[k] == x;
                assert(out@.contains(a@[k]));
            } else {
                assert(b@.contains(x));
                let k = choose|k: int| 0 <= k < b@.len() && b@[k] == x;
                assert(out@.contains(b@[k]));
            }
        }
    }
    out
}

/// Sorts the indices from `lo` up to `hi`.
fn sort_range(keys: &Vec<Vec<u8>>, lo: usize, hi: usize) -> (res: Vec<usize>)
    requires
        lo <= hi <= keys@.len(),
    ensures
        is_order(keys_of(keys@), lo as int, hi as int, res@),
    decreases hi - lo,
{
    if hi - lo == 0 {
        Vec::new()
    } else if hi - lo == 1 {
        let mut out: Vec<usize> = Vec::new();
        out.push(lo);
        assert(out@[0] == lo);
        out
    } else {
        let mid: usize = lo + (hi - lo) / 2;
        let a = sort_range(keys, lo, mid);
        let b = sort_range(keys, mid, hi);
        merge(keys, lo, mid, hi, &a, &b)
    }
}

/// The indices of `keys` in the order of the keys, equal keys by position.
pub fn sorted_order(keys: &Vec<Vec<u8>>) -> (res: Vec<usize>)
    ensures
        is_order(keys_of(keys@), 0, keys@.len() as int, res@),
{
    sort_range(keys, 0, keys.len())
}

/// No byte string comes before itself, and of two at most one comes before
/// the other.
proof fn lemma_lt_asymmetric(a: Seq<u8>, b: Seq<u8>)
    ensures
        !(bytes_lt(a, b) && bytes_lt(b, a)),
        !bytes_lt(a, a),
    decreases a.len(),
{
    if a.len() > 0 {
        lemma_lt_asymmetric(a.skip(1), b.skip(1));
    }
}

/// There is one order: keys and positions decide it fully.
pub proof fn law_order_is_unique(keys: Seq<Seq<u8>>, n: int, a: Seq<usize>, b: Seq<usize>)
    requires
        is_order(keys, 0, n, a),
        is_order(keys, 0, n, b),
    ensures
        a == b,
{
    lemma_orders_agree(keys, n, a, b, n);
    assert(a =~= b);
}

proof fn lemma_orders_agree(keys: Seq<Seq<u8>>, n: int, a: Seq<usize>, b: Seq<usize>, k: int)
    requires
        is_order(keys, 0, n, a),
        is_order(keys, 0, n, b),
        0 <= k <= n,
    ensures
        forall|i: int| 0 <= i < k ==> a[i] == b[i],
    decreases k,
{
    if k > 0 {
        lemma_orders_agree(keys, n, a, b, k - 1);
        let x = a[k - 1];
        let y = b[k - 1];
        if x != y {
            assert(b.contains(x));
            let i = choose|i: int| 0 <= i < b.len() && b[i] == x;
            assert(a.contains(y));
            let j = choose|j: int| 0 <= j < a.len() && a[j] == y;
            if i < k - 1 {
                // Then `a` lists `x` twice, and it comes before itself.
                assert(a[i] == x);
                assert(comes_before(keys, a[i] as int, a[k - 1] as int));
                lemma_lt_asymmetric(keys[x as int], keys[x as int]);
            } else if j < k - 1 {
                assert(b[j] == y);
                assert(comes_before(keys, b[j] as int, b[k - 1] as int));
                lemma_lt_asymmetric(keys[y as int], keys[y as int]);
            } else {
                assert(comes_before(keys, b[k - 1] as int, b[i] as int));
                assert(comes_before(keys, a[k - 1] as int, a[j] as int));
                lemma_lt_asymmetric(keys[x as int], keys[y as int]);
                lemma_lt_asymmetric(keys[x as int], keys[x as int]);
            }
            assert(false);
        }
    }
}

/// No byte string comes before itself.
pub proof fn law_nothing_comes_before_itself(a: Seq<u8>)
    ensures
        !bytes_lt(a, a),
    decreases a.len(),
{
    if a.len() > 0 {
        law_nothing_comes_before_itself(a.skip(1));
    }
}

/// The first byte that differs decides the order, and a beginning comes before
/// what goes on from it.
pub proof fn law_first_difference_decides(
    common: Seq<u8>,
    x: u8,
    a: Seq<u8>,
    y: u8,
    b: Seq<u8>,
)
    ensures
        x != y ==> bytes_lt(common.push(x) + a, common.push(y) + b) == (x < y),
        bytes_lt(common, common.push(y) + b),
        !bytes_lt(common.push(y) + b, common),
    decreases common.len(),
{
    let p = common.push(x) + a;
    let q = common.push(y) + b;
    if common.len() == 0 {
        assert(p[0] == x && q[0] == y);
    } else {
        let rest = common.skip(1);
        assert(p[0] == common[0] && q[0] == common[0]);
        assert(p.skip(1) =~= rest.push(x) + a);
        assert(q.skip(1) =~= rest.push(y) + b);
        law_first_difference_decides(rest, x, a, y, b);
    }
}

/// An order lists every index once, and never puts a larger key before a smaller
/// one; equal keys stay as they were.
pub proof fn law_order_sorts(keys: Seq<Seq<u8>>, order: Seq<usize>, k: int, l: int)
    requires
        is_order(keys, 0, keys.len() as int, order),
        0 <= k < l < order.len(),
    ensures
        order.len() == keys.len(),
        0 <= order[k] < keys.len(),
        0 <= order[l] < keys.len(),
        order[k] != order[l],
        !bytes_lt(keys[order[l] as int], keys[order[k] as int]),
        keys[order[k] as int] == keys[order[l] as int] ==> order[k] < order[l],
{
    assert(comes_before(keys, order[k] as int, order[l] as int));
    let (a, b) = (keys[order[k] as int], keys[order[l] as int]);
    law_nothing_comes_before_itself(a);
    if bytes_lt(a, b) {
        lemma_lt_asymmetric(a, b);
    }
}

} // verus!
