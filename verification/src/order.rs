//! The order in which names are listed: texts compared character by
//! character, by code point.

use vstd::multiset::{lemma_multiset_empty_len, Multiset};
use vstd::prelude::*;
use vstd::relations::*;
use vstd::seq_lib::*;
use vstd::std_specs::iter::IteratorSpec;

verus! {

/// Whether `a` comes before `b`, or equals it, in the lexicographic order of
/// code points.
pub open spec fn text_le(a: Seq<char>, b: Seq<char>) -> bool
    decreases a.len(),
{
    if a.len() == 0 {
        true
    } else if b.len() == 0 {
        false
    } else if a[0] == b[0] {
        text_le(a.drop_first(), b.drop_first())
    } else {
        a[0] < b[0]
    }
}

/// Tells whether `a` comes before `b` or equals it.
pub fn precedes(a: &str, b: &str) -> (le: bool)
    ensures
        le == text_le(a@, b@),
{
    let mut ys = b.chars();
    proof {
        assert(a@.skip(0) =~= a@);
    }
    for x in it: a.chars()
        invariant
            it.seq() == a@,
            text_le(a@, b@) == text_le(a@.skip(it.index() as int), ys.remaining()),
    {
        proof {
            assert(a@.skip(it.index() as int).drop_first() =~= a@.skip(it.index() + 1));
        }
        match ys.next() {
            None => {
                return false;
            },
            Some(y) => {
                if x != y {
                    return x < y;
                }
            },
        }
    }
    true
}

/// `text_le` as a relation.
pub open spec fn text_order() -> spec_fn(Seq<char>, Seq<char>) -> bool {
    |a: Seq<char>, b: Seq<char>| text_le(a, b)
}

/// Every text is below or equal to itself.
pub proof fn lemma_text_le_reflexive(a: Seq<char>)
    ensures
        text_le(a, a),
    decreases a.len(),
{
    if a.len() > 0 {
        lemma_text_le_reflexive(a.drop_first());
    }
}

/// Two texts that are below or equal to each other are the same text.
pub proof fn lemma_text_le_antisymmetric(a: Seq<char>, b: Seq<char>)
    requires
        text_le(a, b),
        text_le(b, a),
    ensures
        a == b,
    decreases a.len(),
{
    if a.len() > 0 && b.len() > 0 {
        lemma_text_le_antisymmetric(a.drop_first(), b.drop_first());
        assert(b =~= seq![b[0]] + b.drop_first());
    }
}

/// What is below or equal to a text is below or equal to all that the text
/// is below or equal to.
pub proof fn lemma_text_le_transitive(a: Seq<char>, b: Seq<char>, c: Seq<char>)
    requires
        text_le(a, b),
        text_le(b, c),
    ensures
        text_le(a, c),
    decreases a.len(),
{
    if a.len() > 0 && b.len() > 0 && c.len() > 0 && a[0] == b[0] && b[0] == c[0] {
        lemma_text_le_transitive(a.drop_first(), b.drop_first(), c.drop_first());
    }
}

/// Of two texts, one is below or equal to the other.
pub proof fn lemma_text_le_total(a: Seq<char>, b: Seq<char>)
    ensures
        text_le(a, b) || text_le(b, a),
    decreases a.len(),
{
    if a.len() > 0 && b.len() > 0 && a[0] == b[0] {
        lemma_text_le_total(a.drop_first(), b.drop_first());
    }
}

/// `text_le` is a total order.
pub proof fn lemma_text_order_total()
    ensures
        total_ordering(text_order()),
{
    let r = text_order();
    assert forall|a: Seq<char>| #[trigger] r(a, a) by {
        lemma_text_le_reflexive(a);
    }
    assert forall|a: Seq<char>, b: Seq<char>| #[trigger] r(a, b) && #[trigger] r(b, a) implies a
        == b by {
        lemma_text_le_antisymmetric(a, b);
    }
    assert forall|a: Seq<char>, b: Seq<char>, c: Seq<char>| #[trigger] r(a, b) && #[trigger] r(
        b,
        c,
    ) implies r(a, c) by {
        lemma_text_le_transitive(a, b, c);
    }
    assert forall|a: Seq<char>, b: Seq<char>| #[trigger] r(a, b) || #[trigger] r(b, a) by {
        lemma_text_le_total(a, b);
    }
}

/// Whether each text of `names` is below or equal to all that follow it.
pub open spec fn is_sorted(names: Seq<Seq<char>>) -> bool {
    forall|i: int, j: int| 0 <= i < j < names.len() ==> text_le(names[i], names[j])
}

/// The texts of `names`, each as often as it occurs there, in ascending
/// order.
pub open spec fn in_order(names: Seq<Seq<char>>) -> Seq<Seq<char>> {
    names.sort_by(text_order())
}

/// `in_order(names)` is sorted and holds the texts of `names`, each as often
/// as `names` does.
pub proof fn lemma_in_order_sorted(names: Seq<Seq<char>>)
    ensures
        is_sorted(in_order(names)),
        in_order(names).to_multiset() == names.to_multiset(),
        in_order(names).len() == names.len(),
{
    lemma_text_order_total();
    names.lemma_sort_by_ensures(text_order());
    let sorted = in_order(names);
    assert forall|i: int, j: int| 0 <= i < j < sorted.len() implies text_le(
        sorted[i],
        sorted[j],
    ) by {
        assert(text_order()(sorted[i], sorted[j]));
    }
    sorted.to_multiset_ensures();
    names.to_multiset_ensures();
}

/// A sorted sequence that holds the texts of `names`, each as often as
/// `names` does, is `in_order(names)`: no other order of them is sorted.
pub proof fn lemma_in_order_unique(names: Seq<Seq<char>>, sorted: Seq<Seq<char>>)
    requires
        is_sorted(sorted),
        sorted.to_multiset() == names.to_multiset(),
    ensures
        sorted == in_order(names),
{
    lemma_text_order_total();
    lemma_in_order_sorted(names);
    lemma_sorted_unique(sorted, in_order(names), text_order());
}

/// The listing order does not depend on the order in which the names came:
/// two sequences that hold the same texts equally often are listed alike.
pub proof fn lemma_in_order_of_permutation(a: Seq<Seq<char>>, b: Seq<Seq<char>>)
    requires
        a.to_multiset() == b.to_multiset(),
    ensures
        in_order(a) == in_order(b),
{
    lemma_in_order_sorted(a);
    lemma_in_order_unique(b, in_order(a));
}

spec fn is_sorted_down(names: Seq<Seq<char>>) -> bool {
    forall|i: int, j: int| 0 <= i < j < names.len() ==> text_le(names[j], names[i])
}

spec fn all_le(low: Seq<Seq<char>>, high: Seq<Seq<char>>) -> bool {
    forall|i: int, k: int| 0 <= i < low.len() && 0 <= k < high.len() ==> text_le(low[i], high[k])
}

/// The texts of three runs together, each as often as it occurs in them.
spec fn pool(a: Seq<Seq<char>>, b: Seq<Seq<char>>, c: Seq<Seq<char>>) -> Multiset<Seq<char>> {
    a.to_multiset().add(b.to_multiset()).add(c.to_multiset())
}

proof fn lemma_pool_without_empty_runs(a: Seq<Seq<char>>, b: Seq<Seq<char>>, c: Seq<Seq<char>>)
    ensures
        a.len() == 0 ==> pool(a, b, c) == b.to_multiset().add(c.to_multiset()),
        b.len() == 0 ==> pool(a, b, c) == a.to_multiset().add(c.to_multiset()),
        c.len() == 0 ==> pool(a, b, c) == a.to_multiset().add(b.to_multiset()),
        a.len() == 0 && b.len() == 0 ==> pool(a, b, c) == c.to_multiset(),
        b.len() == 0 && c.len() == 0 ==> pool(a, b, c) == a.to_multiset(),
{
    a.to_multiset_ensures();
    b.to_multiset_ensures();
    c.to_multiset_ensures();
    lemma_multiset_empty_len(a.to_multiset());
    lemma_multiset_empty_len(b.to_multiset());
    lemma_multiset_empty_len(c.to_multiset());
}

proof fn lemma_pool_after_move(a: Seq<Seq<char>>, b: Seq<Seq<char>>, c: Seq<Seq<char>>)
    ensures
        a.len() > 0 ==> pool(a.drop_last(), b, c.push(a.last())) == pool(a, b, c),
        b.len() > 0 ==> pool(a, b.drop_last(), c.push(b.last())) == pool(a, b, c),
{
    a.to_multiset_ensures();
    b.to_multiset_ensures();
    if a.len() > 0 {
        to_multiset_remove(a, a.len() - 1);
        to_multiset_build(c, a.last());
    }
    if b.len() > 0 {
        to_multiset_remove(b, b.len() - 1);
        to_multiset_build(c, b.last());
    }
}

/// Merges two sorted runs into one.
fn merge(left: Vec<String>, right: Vec<String>) -> (merged: Vec<String>)
    requires
        is_sorted(left.deep_view()),
        is_sorted(right.deep_view()),
    ensures
        is_sorted(merged.deep_view()),
        merged.deep_view().to_multiset() == left.deep_view().to_multiset().add(
            right.deep_view().to_multiset(),
        ),
{
    let ghost all = left.deep_view().to_multiset().add(right.deep_view().to_multiset());
    let mut left = left;
    let mut right = right;
    // The two runs are taken apart from their ends, the greater name first.
    let mut down: Vec<String> = Vec::new();
    proof {
        lemma_pool_without_empty_runs(left.deep_view(), right.deep_view(), down.deep_view());
    }
    while left.len() > 0 || right.len() > 0
        invariant
            is_sorted(left.deep_view()),
            is_sorted(right.deep_view()),
            is_sorted_down(down.deep_view()),
            all_le(left.deep_view(), down.deep_view()),
            all_le(right.deep_view(), down.deep_view()),
            pool(left.deep_view(), right.deep_view(), down.deep_view()) == all,
        decreases left.len() + right.len(),
    {
        let ghost l = left.deep_view();
        let ghost r = right.deep_view();
        let ghost d = down.deep_view();
        proof {
            lemma_pool_after_move(l, r, d);
        }
        let from_left = if left.len() == 0 {
            false
        } else if right.len() == 0 {
            true
        } else {
            !precedes(left[left.len() - 1].as_str(), right[right.len() - 1].as_str())
        };
        if from_left {
            let name = left.pop().unwrap();
            down.push(name);
            proof {
                let x = l.last();
                assert(left.deep_view() =~= l.drop_last());
                assert(down.deep_view() =~= d.push(x));
                assert forall|i: int, k: int|
                    0 <= i < r.len() && 0 <= k < d.len() + 1 implies text_le(
                    r[i],
                    d.push(x)[k],
                ) by {
                    if k == d.len() {
                        lemma_text_le_total(l.last(), r.last());
                        if i < r.len() - 1 {
                            lemma_text_le_transitive(r[i], r.last(), x);
                        }
                    }
                }
            }
        } else {
            let name = right.pop().unwrap();
            down.push(name);
            proof {
                let x = r.last();
                assert(right.deep_view() =~= r.drop_last());
                assert(down.deep_view() =~= d.push(x));
                assert forall|i: int, k: int|
                    0 <= i < l.len() && 0 <= k < d.len() + 1 implies text_le(
                    l[i],
                    d.push(x)[k],
                ) by {
                    if k == d.len() && i < l.len() - 1 {
                        lemma_text_le_transitive(l[i], l.last(), x);
                    }
                }
            }
        }
    }
    // What came out greatest first is turned round.
    let mut merged: Vec<String> = Vec::new();
    let ghost none = Seq::<Seq<char>>::empty();
    proof {
        lemma_pool_without_empty_runs(left.deep_view(), right.deep_view(), down.deep_view());
        lemma_pool_without_empty_runs(down.deep_view(), none, merged.deep_view());
    }
    while down.len() > 0
        invariant
            none.len() == 0,
            is_sorted(merged.deep_view()),
            is_sorted_down(down.deep_view()),
            all_le(merged.deep_view(), down.deep_view()),
            pool(down.deep_view(), none, merged.deep_view()) == all,
        decreases down.len(),
    {
        let ghost d = down.deep_view();
        let ghost m = merged.deep_view();
        let name = down.pop().unwrap();
        merged.push(name);
        proof {
            assert(down.deep_view() =~= d.drop_last());
            assert(merged.deep_view() =~= m.push(d.last()));
            lemma_pool_after_move(d, none, m);
        }
    }
    proof {
        lemma_pool_without_empty_runs(down.deep_view(), none, merged.deep_view());
    }
    merged
}

fn merge_sort(names: Vec<String>) -> (sorted: Vec<String>)
    ensures
        is_sorted(sorted.deep_view()),
        sorted.deep_view().to_multiset() == names.deep_view().to_multiset(),
    decreases names.len(),
{
    let ghost whole = names.deep_view();
    let mut left = names;
    if left.len() <= 1 {
        return left;
    }
    let right = left.split_off(left.len() / 2);
    proof {
        assert(whole =~= left.deep_view() + right.deep_view());
        lemma_multiset_commutative(left.deep_view(), right.deep_view());
    }
    let left = merge_sort(left);
    let right = merge_sort(right);
    merge(left, right)
}

/// Puts `names` in ascending order.
pub fn sort(names: &mut Vec<String>)
    ensures
        final(names).deep_view() == in_order(old(names).deep_view()),
{
    let mut taken: Vec<String> = Vec::new();
    std::mem::swap(names, &mut taken);
    let sorted = merge_sort(taken);
    proof {
        lemma_in_order_unique(old(names).deep_view(), sorted.deep_view());
    }
    *names = sorted;
}

} // verus!
