//! Stable sorting.

use vstd::prelude::*;
use vstd::string::*;

use crate::json;
use crate::json::{Json, JsonView};
use crate::text;
use crate::text::str_le;

verus! {

/// A row of positions with one more put in: it goes in front of those at the end that it is less
/// than.
pub open spec fn put_in(order: Seq<int>, x: int, less: spec_fn(int, int) -> bool) -> Seq<int>
    decreases order.len(),
{
    if order.len() > 0 && less(x, order.last()) {
        put_in(order.drop_last(), x, less).push(order.last())
    } else {
        order.push(x)
    }
}

/// The positions below `n`, put in one after the other.
pub open spec fn sorted_order(n: nat, less: spec_fn(int, int) -> bool) -> Seq<int>
    decreases n,
{
    if n == 0 {
        Seq::empty()
    } else {
        put_in(sorted_order((n - 1) as nat, less), n - 1, less)
    }
}

/// The order of positions by texts. A position without a text is neither before nor behind any
/// other.
pub open spec fn text_less(keys: Seq<Option<Seq<char>>>) -> spec_fn(int, int) -> bool {
    |a: int, b: int|
        match (keys[a], keys[b]) {
            (Some(x), Some(y)) => !text::text_le(y, x),
            _ => false,
        }
}

/// The order of positions by numbers.
pub open spec fn number_less(keys: Seq<u64>) -> spec_fn(int, int) -> bool {
    |a: int, b: int| keys[a] < keys[b]
}

pub open spec fn opt_strings(keys: Seq<Option<String>>) -> Seq<Option<Seq<char>>> {
    keys.map_values(|k: Option<String>| text::opt_string(k))
}

pub open spec fn positions(order: Seq<usize>) -> Seq<int> {
    order.map_values(|i: usize| i as int)
}

fn is_less(keys: &Vec<Option<String>>, a: usize, b: usize) -> (r: bool)
    requires
        a < keys@.len(),
        b < keys@.len(),
    ensures
        r == text_less(opt_strings(keys@))(a as int, b as int),
{
    match (&keys[a], &keys[b]) {
        (Some(x), Some(y)) => !str_le(y.as_str(), x.as_str()),
        _ => false,
    }
}

/// The positions of the keys, sorted.
pub fn order_by_texts(keys: &Vec<Option<String>>) -> (r: Vec<usize>)
    ensures
        positions(r@) == sorted_order(keys@.len(), text_less(opt_strings(keys@))),
        forall|i: int| 0 <= i < r@.len() ==> (#[trigger] r@[i]) < keys@.len(),
        r@.len() == keys@.len(),
{
    let mut order: Vec<usize> = Vec::new();
    let ghost less = text_less(opt_strings(keys@));
    let mut x: usize = 0;
    assert(positions(order@) =~= sorted_order(0, less));
    while x < keys.len()
        invariant
            x <= keys@.len(),
            less == text_less(opt_strings(keys@)),
            positions(order@) == sorted_order(x as nat, less),
            order@.len() == x,
            forall|i: int| 0 <= i < order@.len() ==> (#[trigger] order@[i]) < x,
        decreases keys@.len() - x,
    {
        let mut j: usize = order.len();
        let ghost all = positions(order@);
        assert(all.take(j as int) =~= all);
        assert(put_in(all.take(j as int), x as int, less) + all.skip(j as int) =~= put_in(all, x as int, less));
        while j > 0 && is_less(keys, x, order[j - 1])
            invariant
                x < keys@.len(),
                j <= order@.len(),
                less == text_less(opt_strings(keys@)),
                forall|i: int| 0 <= i < order@.len() ==> (#[trigger] order@[i]) < x,
                all == positions(order@),
                put_in(all.take(j as int), x as int, less) + all.skip(j as int) == put_in(all, x as int, less),
            decreases j,
        {
            proof {
                let head = all.take(j as int);
                assert(head.drop_last() =~= all.take(j - 1));
                assert(head.last() == all[j - 1]);
                let p = put_in(all.take(j - 1), x as int, less);
                assert(p.push(all[j - 1]) + all.skip(j as int) =~= p + all.skip(j - 1));
            }
            j = j - 1;
        }
        order.insert(j, x);
        proof {
            let head = all.take(j as int);
            if j > 0 {
                assert(head.last() == all[j - 1]);
            }
            assert(put_in(head, x as int, less) == head.push(x as int));
            assert(positions(order@) =~= head.push(x as int) + all.skip(j as int));
        }
        x = x + 1;
    }
    order
}

/// The positions of the numbers, sorted.
pub fn order_by_numbers(keys: &Vec<u64>) -> (r: Vec<usize>)
    ensures
        positions(r@) == sorted_order(keys@.len(), number_less(keys@)),
        forall|i: int| 0 <= i < r@.len() ==> (#[trigger] r@[i]) < keys@.len(),
        r@.len() == keys@.len(),
{
    let mut order: Vec<usize> = Vec::new();
    let ghost less = number_less(keys@);
    let mut x: usize = 0;
    assert(positions(order@) =~= sorted_order(0, less));
    while x < keys.len()
        invariant
            x <= keys@.len(),
            less == number_less(keys@),
            positions(order@) == sorted_order(x as nat, less),
            order@.len() == x,
            forall|i: int| 0 <= i < order@.len() ==> (#[trigger] order@[i]) < x,
        decreases keys@.len() - x,
    {
        let mut j: usize = order.len();
        let ghost all = positions(order@);
        assert(all.take(j as int) =~= all);
        assert(put_in(all.take(j as int), x as int, less) + all.skip(j as int) =~= put_in(all, x as int, less));
        while j > 0 && keys[x] < keys[order[j - 1]]
            invariant
                x < keys@.len(),
                j <= order@.len(),
                less == number_less(keys@),
                forall|i: int| 0 <= i < order@.len() ==> (#[trigger] order@[i]) < x,
                all == positions(order@),
                put_in(all.take(j as int), x as int, less) + all.skip(j as int) == put_in(all, x as int, less),
            decreases j,
        {
            proof {
                let head = all.take(j as int);
                assert(head.drop_last() =~= all.take(j - 1));
                assert(head.last() == all[j - 1]);
                let p = put_in(all.take(j - 1), x as int, less);
                assert(p.push(all[j - 1]) + all.skip(j as int) =~= p + all.skip(j - 1));
            }
            j = j - 1;
        }
        order.insert(j, x);
        proof {
            let head = all.take(j as int);
            if j > 0 {
                assert(head.last() == all[j - 1]);
            }
            assert(put_in(head, x as int, less) == head.push(x as int));
            assert(positions(order@) =~= head.push(x as int) + all.skip(j as int));
        }
        x = x + 1;
    }
    order
}

/// The values at the given positions.
pub open spec fn reordered(items: Seq<JsonView>, order: Seq<int>) -> Seq<JsonView> {
    order.map_values(|i: int| items[i])
}

/// The values at the given positions.
pub fn reorder(items: &Vec<Json>, order: &Vec<usize>) -> (r: Vec<Json>)
    requires
        forall|i: int| 0 <= i < order@.len() ==> (#[trigger] order@[i]) < items@.len(),
    ensures
        json::json_views(r@) == reordered(json::json_views(items@), positions(order@)),
{
    let mut out: Vec<Json> = Vec::new();
    let mut i: usize = 0;
    while i < order.len()
        invariant
            i <= order@.len(),
            out@.len() == i,
            forall|k: int| 0 <= k < order@.len() ==> (#[trigger] order@[k]) < items@.len(),
            forall|k: int| 0 <= k < i ==> (#[trigger] out@[k])@ == items@[order@[k] as int]@,
        decreases order@.len() - i,
    {
        out.push(items[order[i]].clone());
        i = i + 1;
    }
    assert(json::json_views(out@) =~= reordered(json::json_views(items@), positions(order@)));
    out
}

// ---------------------------------------------------------------------------
// What sorting means
// ---------------------------------------------------------------------------

/// Whether a row holds every position below `n`, and each of them once.
pub open spec fn is_permutation(order: Seq<int>, n: nat) -> bool {
    &&& order.len() == n
    &&& forall|i: int| 0 <= i < n ==> 0 <= #[trigger] order[i] < n
    &&& forall|i: int, j: int| 0 <= i < j < n ==> #[trigger] order[i] != #[trigger] order[j]
}

/// A row that holds each position below `n` once holds every one of them.
pub proof fn lemma_permutation_reaches(order: Seq<int>, n: nat, k: int)
    requires
        is_permutation(order, n),
        0 <= k < n,
    ensures
        exists|i: int| 0 <= i < n && #[trigger] order[i] == k,
{
    let image = order.to_set();
    let range = vstd::set_lib::set_int_range(0, n as int);
    order.unique_seq_to_set();
    vstd::set_lib::lemma_int_range(0, n as int);
    assert(image.subset_of(range));
    vstd::set_lib::lemma_subset_equality(image, range);
    assert(image.contains(k));
}

/// Whether `less` is an order of the positions below `n` in which some may stand side by side.
pub open spec fn is_weak_order(n: nat, less: spec_fn(int, int) -> bool) -> bool {
    &&& forall|a: int, b: int| 0 <= a < n && 0 <= b < n && #[trigger] less(a, b) ==> !less(b, a)
    &&& forall|a: int, b: int, c: int|
        0 <= a < n && 0 <= b < n && 0 <= c < n && !#[trigger] less(a, b) && !#[trigger] less(b, c) ==> !less(a, c)
}

proof fn lemma_put_in(order: Seq<int>, x: int, less: spec_fn(int, int) -> bool)
    ensures
        ({
            let r = put_in(order, x, less);
            &&& r.len() == order.len() + 1
            &&& exists|k: int|
                #![trigger order.take(k)]
                0 <= k <= order.len() && r == order.take(k).push(x) + order.skip(k) && (forall|i: int|
                    k <= i < order.len() ==> less(x, #[trigger] order[i])) && (k > 0 ==> !less(x, order[k - 1]))
        }),
    decreases order.len(),
{
    let r = put_in(order, x, less);
    if order.len() > 0 && less(x, order.last()) {
        let init = order.drop_last();
        lemma_put_in(init, x, less);
        let k = choose|k: int|
            #![trigger init.take(k)]
            0 <= k <= init.len() && put_in(init, x, less) == init.take(k).push(x) + init.skip(k) && (forall|i: int|
                k <= i < init.len() ==> less(x, #[trigger] init[i])) && (k > 0 ==> !less(x, init[k - 1]));
        assert(init.take(k) =~= order.take(k));
        assert(r =~= order.take(k).push(x) + order.skip(k));
        assert forall|i: int| k <= i < order.len() implies less(x, #[trigger] order[i]) by {
            if i < init.len() {
                assert(init[i] == order[i]);
            }
        }
        if k > 0 {
            assert(init[k - 1] == order[k - 1]);
        }
    } else {
        let k = order.len() as int;
        assert(order.take(k) =~= order);
        assert(r =~= order.take(k).push(x) + order.skip(k));
    }
}

/// Sorting moves the values about and loses none.
pub proof fn law_sorting_permutes(n: nat, less: spec_fn(int, int) -> bool)
    ensures
        is_permutation(sorted_order(n, less), n),
    decreases n,
{
    if n > 0 {
        let m = (n - 1) as nat;
        law_sorting_permutes(m, less);
        let order = sorted_order(m, less);
        lemma_put_in(order, n - 1, less);
        let k = choose|k: int|
            #![trigger order.take(k)]
            0 <= k <= order.len() && put_in(order, n - 1, less) == order.take(k).push(n - 1) + order.skip(k) && (
            forall|i: int| k <= i < order.len() ==> less(n - 1, #[trigger] order[i])) && (k > 0 ==> !less(
                n - 1,
                order[k - 1],
            ));
        let r = sorted_order(n, less);
        assert forall|i: int| 0 <= i < n implies 0 <= #[trigger] r[i] < n by {
            if i < k {
                assert(r[i] == order[i]);
            } else if i > k {
                assert(r[i] == order[i - 1]);
            }
        }
        assert forall|i: int, j: int| 0 <= i < j < n implies #[trigger] r[i] != #[trigger] r[j] by {
            if i < k {
                assert(r[i] == order[i]);
            } else if i > k {
                assert(r[i] == order[i - 1]);
            }
            if j < k {
                assert(r[j] == order[j]);
            } else if j > k {
                assert(r[j] == order[j - 1]);
            }
        }
    }
}

/// After sorting, no position stands behind one that it is less than, and of two that stand side
/// by side in the order the earlier one comes first.
pub proof fn law_sorting_sorts_and_is_stable(n: nat, less: spec_fn(int, int) -> bool)
    requires
        is_weak_order(n, less),
    ensures
        ({
            let r = sorted_order(n, less);
            forall|i: int, j: int|
                0 <= i < j < n ==> !less(#[trigger] r[j], #[trigger] r[i]) && (less(r[i], r[j]) || r[i] < r[j])
        }),
    decreases n,
{
    if n > 0 {
        let m = (n - 1) as nat;
        let x = n - 1;
        law_sorting_sorts_and_is_stable(m, less);
        law_sorting_permutes(m, less);
        let order = sorted_order(m, less);
        lemma_put_in(order, x, less);
        let k = choose|k: int|
            #![trigger order.take(k)]
            0 <= k <= order.len() && put_in(order, n - 1, less) == order.take(k).push(n - 1) + order.skip(k) && (
            forall|i: int| k <= i < order.len() ==> less(n - 1, #[trigger] order[i])) && (k > 0 ==> !less(
                n - 1,
                order[k - 1],
            ));
        let r = sorted_order(n, less);
        assert forall|i: int, j: int| 0 <= i < j < n implies !less(#[trigger] r[j], #[trigger] r[i]) && (less(
            r[i],
            r[j],
        ) || r[i] < r[j]) by {
            if j < k {
                assert(r[i] == order[i] && r[j] == order[j]);
            } else if j == k {
                assert(r[i] == order[i] && r[j] == x);
                assert(0 <= order[k - 1] < m);
                if i < k - 1 {
                    assert(!less(order[k - 1], order[i]));
                    assert(!less(x, order[k - 1]));
                }
            } else if i > k {
                assert(r[i] == order[i - 1] && r[j] == order[j - 1]);
            } else if i == k {
                assert(r[i] == x && r[j] == order[j - 1]);
                assert(less(x, order[j - 1]));
            } else {
                assert(r[i] == order[i] && r[j] == order[j - 1]);
            }
        }
    }
}

/// Texts are an order of positions where each position has one.
pub proof fn law_texts_are_an_order(keys: Seq<Option<Seq<char>>>)
    requires
        forall|i: int| 0 <= i < keys.len() ==> (#[trigger] keys[i]) is Some,
    ensures
        is_weak_order(keys.len(), text_less(keys)),
{
    let less = text_less(keys);
    assert forall|a: int, b: int| 0 <= a < keys.len() && 0 <= b < keys.len() && #[trigger] less(a, b) implies !less(
        b,
        a,
    ) by {
        text::lemma_text_le_total(keys[a]->0, keys[b]->0);
    }
    assert forall|a: int, b: int, c: int|
        0 <= a < keys.len() && 0 <= b < keys.len() && 0 <= c < keys.len() && !#[trigger] less(a, b)
            && !#[trigger] less(b, c) implies !less(a, c) by {
        text::lemma_text_le_transitive(keys[c]->0, keys[b]->0, keys[a]->0);
    }
}

/// Numbers are an order of positions.
pub proof fn law_numbers_are_an_order(keys: Seq<u64>)
    ensures
        is_weak_order(keys.len(), number_less(keys)),
{
}

} // verus!
