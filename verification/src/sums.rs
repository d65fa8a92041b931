//! Sums over finite sets.
use vstd::prelude::*;
use vstd::set::fold::{lemma_fold_empty, lemma_fold_insert};

verus! {

/// The sum of the weights of the items of a finite set.
pub open spec fn sum_over<A>(items: Set<A>, weight: spec_fn(A) -> nat) -> nat {
    items.fold(0nat, |total: nat, item: A| total + weight(item))
}

/// The sum over no items is nothing.
pub proof fn lemma_sum_over_empty<A>(weight: spec_fn(A) -> nat)
    ensures
        sum_over(Set::<A>::empty(), weight) == 0,
{
    lemma_fold_empty(0nat, |total: nat, item: A| total + weight(item));
}

/// One item more adds its weight to the sum.
pub proof fn lemma_sum_over_insert<A>(items: Set<A>, weight: spec_fn(A) -> nat, item: A)
    requires
        items.finite(),
        !items.contains(item),
    ensures
        sum_over(items.insert(item), weight) == sum_over(items, weight) + weight(item),
{
    let add = |total: nat, item: A| total + weight(item);
    assert(vstd::set::fold::is_fun_commutative(add));
    lemma_fold_insert(items, 0nat, add, item);
}

/// One item less takes its weight from the sum.
pub proof fn lemma_sum_over_remove<A>(items: Set<A>, weight: spec_fn(A) -> nat, item: A)
    requires
        items.finite(),
        items.contains(item),
    ensures
        sum_over(items, weight) == sum_over(items.remove(item), weight) + weight(item),
{
    lemma_sum_over_insert(items.remove(item), weight, item);
    assert(items.remove(item).insert(item) =~= items);
}

/// Where each item weighs no more by one weight, taken `c1` times, than by
/// another, taken `c2` times, the sums compare in the same way.
pub proof fn lemma_sum_over_scaled<A>(
    items: Set<A>,
    w1: spec_fn(A) -> nat,
    w2: spec_fn(A) -> nat,
    c1: nat,
    c2: nat,
)
    requires
        items.finite(),
        forall|item: A| items.contains(item) ==> #[trigger] w1(item) * c1 <= w2(item) * c2,
    ensures
        sum_over(items, w1) * c1 <= sum_over(items, w2) * c2,
    decreases items.len(),
{
    if items.len() == 0 {
        items.lemma_len0_is_empty();
        lemma_sum_over_empty(w1);
        lemma_sum_over_empty(w2);
        assert(items == Set::<A>::empty());
        assert(sum_over(items, w1) == 0 && sum_over(items, w2) == 0);
        assert(0 * c1 == 0 && 0 * c2 == 0) by (nonlinear_arith);
    } else {
        let item = items.choose();
        assert(items.contains(item));
        lemma_sum_over_remove(items, w1, item);
        lemma_sum_over_remove(items, w2, item);
        lemma_sum_over_scaled(items.remove(item), w1, w2, c1, c2);
        assert(w1(item) * c1 <= w2(item) * c2);
        assert((sum_over(items.remove(item), w1) + w1(item)) * c1 == sum_over(
            items.remove(item),
            w1,
        ) * c1 + w1(item) * c1) by (nonlinear_arith);
        assert((sum_over(items.remove(item), w2) + w2(item)) * c2 == sum_over(
            items.remove(item),
            w2,
        ) * c2 + w2(item) * c2) by (nonlinear_arith);
    }
}

/// Two weights that agree on every item give the same sum.
pub proof fn lemma_sum_over_congruent<A>(items: Set<A>, w1: spec_fn(A) -> nat, w2: spec_fn(A) -> nat)
    requires
        items.finite(),
        forall|item: A| items.contains(item) ==> #[trigger] w1(item) == w2(item),
    ensures
        sum_over(items, w1) == sum_over(items, w2),
{
    assert forall|item: A| items.contains(item) implies #[trigger] w1(item) * 1 <= w2(item) * 1 by {
        assert(w1(item) == w2(item));
    }
    assert forall|item: A| items.contains(item) implies #[trigger] w2(item) * 1 <= w1(item) * 1 by {
        assert(w1(item) == w2(item));
    }
    lemma_sum_over_scaled(items, w1, w2, 1, 1);
    lemma_sum_over_scaled(items, w2, w1, 1, 1);
}

/// A part of a set weighs no more than the set.
pub proof fn lemma_sum_over_subset<A>(part: Set<A>, items: Set<A>, weight: spec_fn(A) -> nat)
    requires
        items.finite(),
        part.subset_of(items),
    ensures
        sum_over(part, weight) <= sum_over(items, weight),
    decreases items.len(),
{
    vstd::set_lib::lemma_set_subset_finite(items, part);
    if items.len() == 0 {
        items.lemma_len0_is_empty();
        assert(part =~= items);
    } else {
        let item = items.choose();
        lemma_sum_over_remove(items, weight, item);
        if part.contains(item) {
            lemma_sum_over_remove(part, weight, item);
            lemma_sum_over_subset(part.remove(item), items.remove(item), weight);
        } else {
            lemma_sum_over_subset(part, items.remove(item), weight);
        }
    }
}

/// Walking along items that are all different, each step adds the weight of
/// the item that it passes to the sum over the items passed before.
pub proof fn lemma_sum_over_prefix<A>(items: Seq<A>, i: int, weight: spec_fn(A) -> nat)
    requires
        items.no_duplicates(),
        0 <= i < items.len(),
    ensures
        sum_over(items.take(i + 1).to_set(), weight) == sum_over(items.take(i).to_set(), weight)
            + weight(items[i]),
        items.take(i).to_set().finite(),
{
    let before = items.take(i);
    let after = items.take(i + 1);
    vstd::seq_lib::seq_to_set_is_finite(before);
    assert(!before.to_set().contains(items[i]));
    assert(after.to_set() =~= before.to_set().insert(items[i])) by {
        assert forall|a: A| after.to_set().contains(a) implies before.to_set().insert(
            items[i],
        ).contains(a) by {
            let j = choose|j: int| 0 <= j < after.len() && after[j] == a;
            if j < i {
                assert(before[j] == a);
            }
        }
        assert forall|a: A| before.to_set().insert(items[i]).contains(a) implies after.to_set().contains(
            a,
        ) by {
            if a == items[i] {
                assert(after[i] == a);
            } else {
                let j = choose|j: int| 0 <= j < before.len() && before[j] == a;
                assert(after[j] == a);
            }
        }
    }
    lemma_sum_over_insert(before.to_set(), weight, items[i]);
}

} // verus!
