use vstd::prelude::*;

verus! {

/// `p` lists each index of `0..n` exactly once.
pub open spec fn is_permutation(p: Seq<int>, n: int) -> bool {
    &&& p.len() == n
    &&& forall|k: int| 0 <= k < n ==> 0 <= #[trigger] p[k] < n
    &&& forall|k1: int, k2: int| 0 <= k1 < k2 < n ==> p[k1] != p[k2]
}

/// `output` is `input` rearranged by `p`: position `k` of the output holds
/// the item found at `p[k]` in the input.
pub open spec fn rearranged_by<T>(input: Seq<T>, output: Seq<T>, p: Seq<int>) -> bool {
    &&& is_permutation(p, input.len() as int)
    &&& output.len() == input.len()
    &&& forall|k: int| 0 <= k < output.len() ==> #[trigger] output[k] == input[p[k]]
}

/// Keys never increase from one position to the next.
pub open spec fn keys_descending<T>(s: Seq<T>, key: spec_fn(T) -> int) -> bool {
    forall|k1: int, k2: int| 0 <= k1 < k2 < s.len() ==> key(s[k1]) >= key(s[k2])
}

/// Items with equal keys keep the relative order they had in the input.
pub open spec fn keeps_ties_in_order<T>(output: Seq<T>, p: Seq<int>, key: spec_fn(T) -> int) -> bool {
    forall|k1: int, k2: int|
        0 <= k1 < k2 < output.len() && key(output[k1]) == key(output[k2]) ==> p[k1] < p[k2]
}

/// `output` is the stable sort of `input` by `key`, largest key first: the
/// same items, keys never increasing, and items with equal keys in their
/// input order.
pub open spec fn is_stable_sort_desc<T>(input: Seq<T>, output: Seq<T>, key: spec_fn(T) -> int) -> bool {
    exists|p: Seq<int>|
        #[trigger] rearranged_by(input, output, p) && keys_descending(output, key)
            && keeps_ties_in_order(output, p, key)
}

/// The key of a keyed pair.
pub open spec fn pair_key<T>() -> spec_fn((i128, T)) -> int {
    |x: (i128, T)| x.0 as int
}

/// Sorts the pairs by their key, largest first; pairs with equal keys keep the
/// order in which they came (the order `sort_by` gives with a reversed
/// comparison of the keys).
pub fn sort_desc_stable<T>(items: Vec<(i128, T)>) -> (sorted: Vec<(i128, T)>)
    ensures
        is_stable_sort_desc(items@, sorted@, pair_key()),
{
    let ghost input = items@;
    let n = items.len();
    let mut rest = items;
    let mut out: Vec<(i128, T)> = Vec::new();
    let ghost mut p: Seq<int> = Seq::empty();
    let mut i: usize = 0;
    while i < n
        invariant
            n == input.len(),
            i <= n,
            rest@ == input.subrange(i as int, n as int),
            out@.len() == i,
            p.len() == i,
            forall|k: int| 0 <= k < i ==> 0 <= #[trigger] p[k] < i,
            forall|k1: int, k2: int| 0 <= k1 < k2 < i ==> p[k1] != p[k2],
            forall|k: int| 0 <= k < i ==> #[trigger] out@[k] == input[p[k]],
            keys_descending(out@, pair_key()),
            keeps_ties_in_order(out@, p, pair_key()),
        decreases n - i,
    {
        let item = rest.remove(0);
        assert(item == input[i as int]);
        let key = item.0;
        let mut pos: usize = 0;
        while pos < out.len() && out[pos].0 >= key
            invariant
                pos <= out@.len(),
                forall|k: int| 0 <= k < pos ==> #[trigger] out@[k].0 >= key,
            decreases out@.len() - pos,
        {
            pos = pos + 1;
        }
        proof {
            assert forall|k: int| pos <= k < out@.len() implies #[trigger] out@[k].0 < key by {
                assert(out@[pos as int].0 < key);
                assert(out@[pos as int].0 >= out@[k].0);
            }
        }
        let ghost old_out = out@;
        let ghost old_p = p;
        out.insert(pos, item);
        proof {
            p = old_p.insert(pos as int, i as int);
            assert forall|k: int| 0 <= k < i + 1 implies #[trigger] out@[k] == input[p[k]] by {
                if k < pos {
                    assert(out@[k] == old_out[k]);
                } else if k > pos {
                    assert(out@[k] == old_out[k - 1]);
                }
            }
            assert forall|k: int| 0 <= k < i + 1 implies 0 <= #[trigger] p[k] < i + 1 by {
                if k < pos {
                    assert(p[k] == old_p[k]);
                } else if k > pos {
                    assert(p[k] == old_p[k - 1]);
                }
            }
            assert forall|k1: int, k2: int| 0 <= k1 < k2 < i + 1 implies p[k1] != p[k2] by {
                if k1 != pos && k2 != pos {
                    let a = if k1 < pos { k1 } else { k1 - 1 };
                    let b = if k2 < pos { k2 } else { k2 - 1 };
                    assert(p[k1] == old_p[a]);
                    assert(p[k2] == old_p[b]);
                } else if k1 == pos {
                    assert(p[k2] == old_p[k2 - 1]);
                } else {
                    if k1 < pos {
                        assert(p[k1] == old_p[k1]);
                    }
                }
            }
            assert forall|k1: int, k2: int| 0 <= k1 < k2 < out@.len() implies out@[k1].0
                >= out@[k2].0 by {
                let a = if k1 < pos { k1 } else { k1 - 1 };
                let b = if k2 < pos { k2 } else { k2 - 1 };
                if k1 != pos && k2 != pos {
                    assert(out@[k1] == old_out[a]);
                    assert(out@[k2] == old_out[b]);
                } else if k1 == pos {
                    assert(out@[k2] == old_out[b]);
                } else {
                    assert(out@[k1] == old_out[a]);
                }
            }
            assert forall|k1: int, k2: int|
                0 <= k1 < k2 < out@.len() && out@[k1].0 == out@[k2].0 implies p[k1] < p[k2] by {
                let a = if k1 < pos { k1 } else { k1 - 1 };
                let b = if k2 < pos { k2 } else { k2 - 1 };
                if k1 != pos && k2 != pos {
                    assert(out@[k1] == old_out[a]);
                    assert(out@[k2] == old_out[b]);
                    assert(p[k1] == old_p[a]);
                    assert(p[k2] == old_p[b]);
                } else if k1 == pos {
                    assert(out@[k2] == old_out[b]);
                } else {
                    assert(out@[k1] == old_out[a]);
                    assert(p[k1] == old_p[a]);
                }
            }
        }
        i = i + 1;
    }
    proof {
        assert(rearranged_by(input, out@, p));
    }
    out
}


/// Sorts `items` by `key`, largest first and stable, given the key of each
/// item as a machine integer.
pub(crate) fn sort_items_desc<T>(items: Vec<T>, keys: &Vec<i128>, Ghost(key): Ghost<spec_fn(T) -> int>) -> (sorted: Vec<T>)
    requires
        keys@.len() == items@.len(),
        forall|k: int| 0 <= k < items@.len() ==> keys@[k] as int == key(#[trigger] items@[k]),
    ensures
        is_stable_sort_desc(items@, sorted@, key),
{
    let ghost input = items@;
    let n = items.len();
    let mut rest = items;
    let mut pairs: Vec<(i128, T)> = Vec::new();
    let mut i: usize = 0;
    while i < n
        invariant
            n == input.len(),
            n == keys@.len(),
            i <= n,
            rest@ == input.subrange(i as int, n as int),
            pairs@.len() == i,
            forall|k: int| 0 <= k < i ==> #[trigger] pairs@[k] == (keys@[k], input[k]),
        decreases n - i,
    {
        let item = rest.remove(0);
        pairs.push((keys[i], item));
        i = i + 1;
    }
    let ghost pin = pairs@;
    let sorted_pairs = sort_desc_stable(pairs);
    let ghost pout = sorted_pairs@;
    let mut left = sorted_pairs;
    let mut out: Vec<T> = Vec::new();
    let mut j: usize = 0;
    while j < n
        invariant
            n == pout.len(),
            j <= n,
            left@ == pout.subrange(j as int, n as int),
            out@.len() == j,
            forall|k: int| 0 <= k < j ==> #[trigger] out@[k] == pout[k].1,
        decreases n - j,
    {
        let pair = left.remove(0);
        out.push(pair.1);
        j = j + 1;
    }
    proof {
        let p = choose|p: Seq<int>|
            #[trigger] rearranged_by(pin, pout, p) && keys_descending(pout, pair_key())
                && keeps_ties_in_order(pout, p, pair_key());
        assert forall|k: int| 0 <= k < out@.len() implies #[trigger] out@[k] == input[p[k]] by {
            assert(pout[k] == pin[p[k]]);
        }
        assert forall|k: int| 0 <= k < out@.len() implies key(#[trigger] out@[k]) == pout[k].0 as int by {
            assert(pout[k] == pin[p[k]]);
        }
        assert(rearranged_by(input, out@, p));
        assert forall|k1: int, k2: int| 0 <= k1 < k2 < out@.len() implies key(out@[k1]) >= key(out@[k2]) by {
            assert(key(out@[k1]) == pout[k1].0 as int);
            assert(key(out@[k2]) == pout[k2].0 as int);
        }
        assert forall|k1: int, k2: int|
            0 <= k1 < k2 < out@.len() && key(out@[k1]) == key(out@[k2]) implies p[k1] < p[k2] by {
            assert(key(out@[k1]) == pout[k1].0 as int);
            assert(key(out@[k2]) == pout[k2].0 as int);
        }
    }
    out
}

/// Every index of `0..n` is hit by a permutation of `0..n`.
pub(crate) proof fn lemma_permutation_onto(p: Seq<int>, n: int, j: int)
    requires
        is_permutation(p, n),
        0 <= j < n,
    ensures
        exists|k: int| 0 <= k < p.len() && p[k] == j,
    decreases n,
{
    let last = n - 1;
    if p[last] == j {
        assert(p[last] == j);
    } else if p[last] == last {
        let q = p.take(last);
        assert forall|k: int| 0 <= k < last implies 0 <= #[trigger] q[k] < last by {
            assert(p[k] != p[last]);
        }
        lemma_permutation_onto(q, last, j);
        let k = choose|k: int| 0 <= k < q.len() && q[k] == j;
        assert(p[k] == j);
    } else {
        // Fold the slot holding `last` onto the value of the last slot.
        let q = Seq::new(last as nat, |k: int| if p[k] == last { p[last] } else { p[k] });
        assert forall|k: int| 0 <= k < last implies 0 <= #[trigger] q[k] < last by {
            assert(p[k] != p[last]);
        }
        assert forall|k1: int, k2: int| 0 <= k1 < k2 < last implies q[k1] != q[k2] by {
            assert(p[k1] != p[k2]);
            assert(p[k1] != p[last]);
            assert(p[k2] != p[last]);
        }
        let j2 = if j == last { p[last] } else { j };
        lemma_permutation_onto(q, last, j2);
        let k = choose|k: int| 0 <= k < q.len() && q[k] == j2;
        if p[k] == last {
            assert(j == last);
        } else {
            assert(p[k] != p[last]);
        }
        assert(p[k] == j);
    }
}

/// Two permutations of `0..n` that both list the indices in increasing order
/// of the same asymmetric relation `lt` agree at position `k`, given that
/// they agree before it.
proof fn lemma_sorted_agree_at(p1: Seq<int>, p2: Seq<int>, n: int, lt: spec_fn(int, int) -> bool, k: int)
    requires
        is_permutation(p1, n),
        is_permutation(p2, n),
        forall|a: int, b: int| #[trigger] lt(a, b) ==> !lt(b, a),
        forall|k1: int, k2: int| 0 <= k1 < k2 < n ==> lt(p1[k1], p1[k2]),
        forall|k1: int, k2: int| 0 <= k1 < k2 < n ==> lt(p2[k1], p2[k2]),
        0 <= k < n,
        forall|j: int| 0 <= j < k ==> p1[j] == p2[j],
    ensures
        p1[k] == p2[k],
{
    let x = p1[k];
    lemma_permutation_onto(p2, n, x);
    let m = choose|m: int| 0 <= m < p2.len() && p2[m] == x;
    if m < k {
        assert(p1[m] == x);
    } else if m > k {
        let y = p2[k];
        lemma_permutation_onto(p1, n, y);
        let m2 = choose|m2: int| 0 <= m2 < p1.len() && p1[m2] == y;
        if m2 < k {
            assert(p2[m2] == y);
        } else if m2 == k {
            assert(p2[m] == p2[k]);
        } else {
            assert(lt(x, y));
            assert(lt(y, x));
        }
    }
}

proof fn lemma_sorted_agree_upto(p1: Seq<int>, p2: Seq<int>, n: int, lt: spec_fn(int, int) -> bool, k: int)
    requires
        is_permutation(p1, n),
        is_permutation(p2, n),
        forall|a: int, b: int| #[trigger] lt(a, b) ==> !lt(b, a),
        forall|k1: int, k2: int| 0 <= k1 < k2 < n ==> lt(p1[k1], p1[k2]),
        forall|k1: int, k2: int| 0 <= k1 < k2 < n ==> lt(p2[k1], p2[k2]),
        0 <= k <= n,
    ensures
        forall|j: int| 0 <= j < k ==> p1[j] == p2[j],
    decreases k,
{
    if k > 0 {
        lemma_sorted_agree_upto(p1, p2, n, lt, k - 1);
        lemma_sorted_agree_at(p1, p2, n, lt, k - 1);
    }
}

/// A stable sort has one result: any two outputs that are stable sorts of
/// the same input by the same key are equal.
pub proof fn lemma_stable_sort_unique<T>(input: Seq<T>, o1: Seq<T>, o2: Seq<T>, key: spec_fn(T) -> int)
    requires
        is_stable_sort_desc(input, o1, key),
        is_stable_sort_desc(input, o2, key),
    ensures
        o1 == o2,
{
    let n = input.len() as int;
    let p1 = choose|p: Seq<int>|
        #[trigger] rearranged_by(input, o1, p) && keys_descending(o1, key) && keeps_ties_in_order(o1, p, key);
    let p2 = choose|p: Seq<int>|
        #[trigger] rearranged_by(input, o2, p) && keys_descending(o2, key) && keeps_ties_in_order(o2, p, key);
    let lt = |a: int, b: int|
        key(input[a]) > key(input[b]) || (key(input[a]) == key(input[b]) && a < b);
    assert forall|k1: int, k2: int| 0 <= k1 < k2 < n implies lt(p1[k1], p1[k2]) by {
        assert(o1[k1] == input[p1[k1]]);
        assert(o1[k2] == input[p1[k2]]);
    }
    assert forall|k1: int, k2: int| 0 <= k1 < k2 < n implies lt(p2[k1], p2[k2]) by {
        assert(o2[k1] == input[p2[k1]]);
        assert(o2[k2] == input[p2[k2]]);
    }
    lemma_sorted_agree_upto(p1, p2, n, lt, n);
    assert forall|k: int| 0 <= k < o1.len() implies o1[k] == o2[k] by {
        assert(o1[k] == input[p1[k]]);
        assert(o2[k] == input[p2[k]]);
    }
    assert(o1 =~= o2);
}

} // verus!
