//! Reordering of the display permutation by a column comparator.
//!
//! The table never moves its records: sorting permutes `sort_refs`, the
//! vector of storage indices that realises the displayed order.

use vstd::prelude::*;

verus! {

use core::cmp::Ordering;
use crate::ColumnKey;
use crate::TableViewItem;

/// The comparison the display order follows.  For an ascending sort
/// (`Ordering::Less`) the items compare left to right; for any other
/// direction the operands swap sides, so that ties break identically in
/// both directions.
pub open spec fn dir_cmp<T: TableViewItem<H>, H: ColumnKey>(
    order: Ordering,
    a: T,
    b: T,
    column: H,
) -> Ordering {
    if order == Ordering::Less {
        a.cmp_spec(&b, column)
    } else {
        b.cmp_spec(&a, column)
    }
}

/// The display references `refs` are in order for `column` sorted in
/// direction `order`: no later row compares below an earlier one.
pub open spec fn refs_sorted_by<T: TableViewItem<H>, H: ColumnKey>(
    items: Seq<T>,
    refs: Seq<usize>,
    column: H,
    order: Ordering,
) -> bool {
    forall|p: int, q: int|
        #![trigger refs[p], refs[q]]
        0 <= p < q < refs.len() ==> dir_cmp(
            order,
            items[refs[p] as int],
            items[refs[q] as int],
            column,
        ) != Ordering::Greater
}

/// An item never compares strictly below itself.
proof fn lemma_dir_refl<T: TableViewItem<H>, H: ColumnKey>(order: Ordering, a: T, column: H)
    ensures
        dir_cmp(order, a, a, column) != Ordering::Greater,
{
    T::cmp_spec_antisymmetric(a, a, column);
}

/// If `a` compares strictly above `b`, then `b` does not compare
/// strictly above `a`.
proof fn lemma_dir_total<T: TableViewItem<H>, H: ColumnKey>(
    order: Ordering,
    a: T,
    b: T,
    column: H,
)
    requires
        dir_cmp(order, a, b, column) == Ordering::Greater,
    ensures
        dir_cmp(order, b, a, column) != Ordering::Greater,
{
    T::cmp_spec_antisymmetric(a, b, column);
    T::cmp_spec_antisymmetric(b, a, column);
}

/// "Not above" is transitive, in either direction.
proof fn lemma_dir_trans<T: TableViewItem<H>, H: ColumnKey>(
    order: Ordering,
    a: T,
    b: T,
    c: T,
    column: H,
)
    requires
        dir_cmp(order, a, b, column) != Ordering::Greater,
        dir_cmp(order, b, c, column) != Ordering::Greater,
    ensures
        dir_cmp(order, a, c, column) != Ordering::Greater,
{
    if order == Ordering::Less {
        T::cmp_spec_transitive(a, b, c, column);
    } else {
        T::cmp_spec_transitive(c, b, a, column);
    }
}

/// Compares the records at storage indices `a` and `b` in the direction
/// the current sort asks for.
fn dir_cmp_exec<T: TableViewItem<H>, H: ColumnKey>(
    items: &Vec<T>,
    a: usize,
    b: usize,
    column: H,
    order: Ordering,
) -> (r: Ordering)
    requires
        a < items@.len(),
        b < items@.len(),
    ensures
        r == dir_cmp(order, items@[a as int], items@[b as int], column),
{
    if matches!(order, Ordering::Less) {
        items[a].cmp(&items[b], column)
    } else {
        items[b].cmp(&items[a], column)
    }
}

/// Selection sort of the display references.  The set of references is
/// untouched (the result holds exactly the storage indices it started
/// with), and afterwards the rows are in order for `column` and
/// `order`.
pub(crate) fn sort_refs_by<T: TableViewItem<H>, H: ColumnKey>(
    items: &Vec<T>,
    refs: &mut Vec<usize>,
    column: H,
    order: Ordering,
)
    requires
        forall|k: int| 0 <= k < old(refs)@.len() ==> (#[trigger] old(refs)@[k]) < items@.len(),
    ensures
        final(refs)@.len() == old(refs)@.len(),
        final(refs)@.to_multiset() == old(refs)@.to_multiset(),
        forall|k: int| 0 <= k < final(refs)@.len() ==> (#[trigger] final(refs)@[k])
            < items@.len(),
        refs_sorted_by(items@, final(refs)@, column, order),
        old(refs)@.no_duplicates() ==> final(refs)@.no_duplicates(),
{
    broadcast use vstd::seq_lib::group_to_multiset_ensures;
    broadcast use vstd::multiset::group_multiset_axioms;

    let ghost orig: Seq<usize> = refs@;
    let n: usize = refs.len();
    let mut i: usize = 0;
    while i < n
        invariant
            n == refs@.len(),
            i <= n,
            refs@.to_multiset() == orig.to_multiset(),
            forall|k: int| 0 <= k < n ==> (#[trigger] refs@[k]) < items@.len(),
            forall|p: int, q: int|
                #![trigger refs@[p], refs@[q]]
                0 <= p < q < i ==> dir_cmp(
                    order,
                    items@[refs@[p] as int],
                    items@[refs@[q] as int],
                    column,
                ) != Ordering::Greater,
            forall|p: int, q: int|
                #![trigger refs@[p], refs@[q]]
                0 <= p < i <= q < n ==> dir_cmp(
                    order,
                    items@[refs@[p] as int],
                    items@[refs@[q] as int],
                    column,
                ) != Ordering::Greater,
        decreases n - i,
    {
        proof {
            lemma_dir_refl(order, items@[refs@[i as int] as int], column);
        }
        let mut m: usize = i;
        let mut j: usize = i + 1;
        while j < n
            invariant
                n == refs@.len(),
                i < n,
                i <= m,
                m < j,
                j <= n,
                forall|k: int| 0 <= k < n ==> (#[trigger] refs@[k]) < items@.len(),
                forall|k: int|
                    i <= k < j ==> dir_cmp(
                        order,
                        items@[refs@[m as int] as int],
                        #[trigger] items@[refs@[k] as int],
                        column,
                    ) != Ordering::Greater,
            decreases n - j,
        {
            let c = dir_cmp_exec(items, refs[m], refs[j], column, order);
            if matches!(c, Ordering::Greater) {
                proof {
                    let x = items@[refs@[j as int] as int];
                    let y = items@[refs@[m as int] as int];
                    lemma_dir_total(order, y, x, column);
                    assert forall|k: int| i <= k < j implies dir_cmp(
                        order,
                        x,
                        #[trigger] items@[refs@[k] as int],
                        column,
                    ) != Ordering::Greater by {
                        lemma_dir_trans(order, x, y, items@[refs@[k] as int], column);
                    }
                    lemma_dir_refl(order, x, column);
                }
                m = j;
            } else {
                proof {
                    lemma_dir_refl(order, items@[refs@[j as int] as int], column);
                }
            }
            j = j + 1;
        }
        if m != i {
            let a = refs[i];
            let b = refs[m];
            let ghost before: Seq<usize> = refs@;
            refs[i] = b;
            refs[m] = a;
            proof {
                assert(refs@ == before.update(i as int, b).update(m as int, a));
                assert(before.contains(a)) by {
                    assert(before[i as int] == a);
                }
                assert(before.contains(b)) by {
                    assert(before[m as int] == b);
                }
                assert(before.update(i as int, b)[m as int] == b);
                let ghost mid: Seq<usize> = before.update(i as int, b);
                vstd::seq_lib::to_multiset_update(before, i as int, b);
                vstd::seq_lib::to_multiset_update(mid, m as int, a);
                vstd::seq_lib::to_multiset_contains(before, a);
                vstd::seq_lib::to_multiset_contains(before, b);
                assert(mid[m as int] == b);
                assert(refs@.to_multiset() == mid.to_multiset().insert(a).remove(b));
                assert(before.to_multiset().count(a) > 0);
                assert(before.to_multiset().count(b) > 0);
                assert(refs@.to_multiset() =~= before.to_multiset());
            }
        }
        i = i + 1;
    }
    proof {
        if orig.no_duplicates() {
            orig.lemma_multiset_has_no_duplicates();
            refs@.lemma_multiset_has_no_duplicates_conv();
        }
    }
}

} // verus!
