//! Width allocation: a pure function from the available drawing width
//! and the per-column width policies to the width of every column.
//!
//! Columns with an explicit policy are served first, in display order:
//! a percentage is rounded up and capped at the width still remaining,
//! an absolute width is taken as is.  Whatever remains is then shared
//! evenly by the columns with no requested width.

use vstd::prelude::*;

verus! {

use crate::column::TableColumnWidth;

/// Width a percentage policy asks for: `p` percent of the table's total
/// width, rounded up.
pub open spec fn percent_width(total: int, p: int) -> int {
    (total * p + 99) / 100
}

/// Width still unallocated after the first `i` columns took their
/// explicitly requested widths (unsized columns take nothing here).
/// Subtraction saturates at zero.
pub open spec fn rem_after(
    ps: Seq<Option<TableColumnWidth>>,
    total: int,
    avail: int,
    i: int,
) -> int
    decreases i,
{
    if i <= 0 {
        avail
    } else {
        let prev = rem_after(ps, total, avail, i - 1);
        match ps[i - 1] {
            Some(TableColumnWidth::Absolute(n)) => if n as int <= prev {
                prev - n
            } else {
                0
            },
            Some(TableColumnWidth::Percent(p)) => if percent_width(total, p as int) <= prev {
                prev - percent_width(total, p as int)
            } else {
                0
            },
            None => prev,
        }
    }
}

/// How many of the first `i` columns have no requested width.
pub open spec fn unsized_count_prefix(ps: Seq<Option<TableColumnWidth>>, i: int) -> int
    decreases i,
{
    if i <= 0 {
        0
    } else {
        unsized_count_prefix(ps, i - 1) + if ps[i - 1] is None {
            1int
        } else {
            0int
        }
    }
}

/// The width the layout gives column `i`.
pub open spec fn col_width(
    ps: Seq<Option<TableColumnWidth>>,
    total: int,
    avail: int,
    i: int,
) -> int {
    match ps[i] {
        Some(TableColumnWidth::Absolute(n)) => n as int,
        Some(TableColumnWidth::Percent(p)) => if percent_width(total, p as int) <= rem_after(
            ps,
            total,
            avail,
            i,
        ) {
            percent_width(total, p as int)
        } else {
            rem_after(ps, total, avail, i)
        },
        None => rem_after(ps, total, avail, ps.len() as int) / unsized_count_prefix(
            ps,
            ps.len() as int,
        ),
    }
}

/// Sum of the widths of the first `i` columns.
pub open spec fn width_sum_prefix(
    ps: Seq<Option<TableColumnWidth>>,
    total: int,
    avail: int,
    i: int,
) -> int
    decreases i,
{
    if i <= 0 {
        0
    } else {
        width_sum_prefix(ps, total, avail, i - 1) + col_width(ps, total, avail, i - 1)
    }
}

/// Sum of all the computed column widths.
pub open spec fn width_sum(ps: Seq<Option<TableColumnWidth>>, total: int, avail: int) -> int {
    width_sum_prefix(ps, total, avail, ps.len() as int)
}

/// Every absolute width fits into what is still unallocated when its
/// column's turn comes.  Without this an absolute column is served in
/// full even past the available width, and the widths can overrun.
pub open spec fn absolutes_fit(ps: Seq<Option<TableColumnWidth>>, total: int, avail: int) -> bool {
    forall|i: int|
        0 <= i < ps.len() ==> ((#[trigger] ps[i]) matches Some(TableColumnWidth::Absolute(n))
            ==> n as int <= rem_after(ps, total, avail, i))
}

/// The width available for column content: the total, less three cells
/// for each separator between adjacent columns, less two more when a
/// vertical scrollbar will be shown (more rows than the viewport can
/// hold).  All subtraction saturates at zero.
pub open spec fn spec_avail(total: int, count: int, height: int, items: int) -> int {
    let base = if count <= 1 {
        total
    } else if total - 3 * (count - 1) >= 0 {
        total - 3 * (count - 1)
    } else {
        0
    };
    let visible = if height >= 1 {
        height - 1
    } else {
        0
    };
    if visible < items {
        if base - 2 >= 0 {
            base - 2
        } else {
            base - base
        }
    } else {
        base
    }
}

/// Computes [`spec_avail`] on machine integers.
pub(crate) fn available_width(total: usize, count: usize, height: usize, items: usize) -> (r:
    usize)
    ensures
        r as int == spec_avail(total as int, count as int, height as int, items as int),
{
    let base: usize = if count <= 1 {
        total
    } else {
        let c1 = count - 1;
        if c1 <= total / 3 {
            proof {
                assert(3 * (total as int / 3) <= total as int) by (nonlinear_arith);
                assert(3 * (c1 as int) <= 3 * (total as int / 3)) by (nonlinear_arith)
                    requires
                        c1 as int <= total as int / 3,
                ;
            }
            total - 3 * c1
        } else {
            proof {
                assert(total as int - 3 * (c1 as int) < 0) by (nonlinear_arith)
                    requires
                        c1 as int > total as int / 3,
                        total as int >= 0,
                ;
            }
            0
        }
    };
    let visible: usize = if height >= 1 {
        height - 1
    } else {
        0
    };
    if visible < items {
        if base >= 2 {
            base - 2
        } else {
            0
        }
    } else {
        base
    }
}

/// Computes the width of every column: `r[i]` is
/// [`col_width`]`(policies, total, avail, i)`.
pub fn compute_widths(policies: &Vec<Option<TableColumnWidth>>, total: usize, avail: usize) -> (r:
    Vec<usize>)
    ensures
        r@.len() == policies@.len(),
        forall|i: int|
            0 <= i < policies@.len() ==> (#[trigger] r@[i]) as int == col_width(
                policies@,
                total as int,
                avail as int,
                i,
            ),
{
    let n = policies.len();
    let mut r: Vec<usize> = Vec::new();
    let mut remaining: usize = avail;
    let mut unsized_n: usize = 0;
    let mut i: usize = 0;
    while i < n
        invariant
            n == policies@.len(),
            i <= n,
            r@.len() == i as int,
            remaining as int == rem_after(policies@, total as int, avail as int, i as int),
            unsized_n as int == unsized_count_prefix(policies@, i as int),
            unsized_n <= i,
            forall|k: int|
                0 <= k < i as int && policies@[k] is Some ==> (#[trigger] r@[k]) as int
                    == col_width(policies@, total as int, avail as int, k),
            forall|k: int| 0 <= k < i as int && policies@[k] is None ==> (#[trigger] r@[k]) == 0,
        decreases n - i,
    {
        match policies[i] {
            Some(TableColumnWidth::Absolute(w)) => {
                r.push(w);
                remaining = if w <= remaining {
                    remaining - w
                } else {
                    0
                };
            },
            Some(TableColumnWidth::Percent(p)) => {
                proof {
                    assert((total as u128) * (p as u128) + 99 < u128::MAX) by (nonlinear_arith)
                        requires
                            (total as u128) <= 0xFFFF_FFFF_FFFF_FFFFu128,
                            (p as u128) <= 0xFFFF_FFFF_FFFF_FFFFu128,
                    ;
                }
                let product: u128 = (total as u128) * (p as u128);
                let rounded: u128 = (product + 99) / 100;
                proof {
                    assert(rounded as int == percent_width(total as int, p as int));
                }
                let w: usize = if rounded >= (remaining as u128) {
                    remaining
                } else {
                    proof {
                        assert(rounded <= usize::MAX as u128);
                        assert((rounded as usize) as u128 == rounded);
                    }
                    rounded as usize
                };
                r.push(w);
                remaining = remaining - w;
            },
            None => {
                r.push(0);
                unsized_n = unsized_n + 1;
            },
        }
        i = i + 1;
    }
    if unsized_n > 0 {
        let share: usize = remaining / unsized_n;
        let mut j: usize = 0;
        while j < n
            invariant
                n == policies@.len(),
                r@.len() == n as int,
                unsized_n as int == unsized_count_prefix(policies@, n as int),
                unsized_n > 0,
                share as int == rem_after(policies@, total as int, avail as int, n as int)
                    / unsized_count_prefix(policies@, n as int),
                j <= n,
                forall|k: int|
                    0 <= k < n as int && policies@[k] is Some ==> (#[trigger] r@[k]) as int
                        == col_width(policies@, total as int, avail as int, k),
                forall|k: int|
                    0 <= k < j as int && policies@[k] is None ==> (#[trigger] r@[k]) == share,
                forall|k: int|
                    j as int <= k < n as int && policies@[k] is None ==> (#[trigger] r@[k]) == 0,
            decreases n - j,
        {
            if policies[j].is_none() {
                r[j] = share;
            }
            j = j + 1;
        }
        r
    } else {
        proof {
            assert forall|k: int| 0 <= k < n as int implies !(policies@[k] is None) by {
                if policies@[k] is None {
                    lemma_unsized_count_bounds(policies@, k);
                    assert(unsized_count_prefix(policies@, k + 1) >= 1);
                    lemma_unsized_prefix_le(policies@, k + 1, n as int);
                }
            }
        }
        r
    }
}

/// The widths the layout assigns never exceed the available width: each
/// sized column takes at most what is still unallocated (absolute
/// policies by the stated premise), and the unsized columns share what
/// is left without exceeding it.
pub proof fn lemma_width_sum_within_avail(
    ps: Seq<Option<TableColumnWidth>>,
    total: int,
    avail: int,
)
    requires
        0 <= total,
        0 <= avail,
        absolutes_fit(ps, total, avail),
    ensures
        width_sum(ps, total, avail) <= avail,
{
    lemma_sized_budget(ps, total, avail, ps.len() as int);
    lemma_width_sum_decompose(ps, total, avail, ps.len() as int);
    lemma_unsized_count_bounds(ps, ps.len() as int);
    let len = ps.len() as int;
    let k = unsized_count_prefix(ps, len);
    let rem = rem_after(ps, total, avail, len);
    if k > 0 {
        assert(k * (rem / k) <= rem) by (nonlinear_arith)
            requires
                k > 0,
                rem >= 0,
        ;
    }
}

/// The layout never overruns the total width: the column widths plus
/// the three cells of every separator stay within what was supplied.
pub proof fn lemma_layout_width_sum(
    ps: Seq<Option<TableColumnWidth>>,
    total: int,
    height: int,
    items: int,
)
    requires
        0 <= total,
        ps.len() >= 1 ==> 3 * (ps.len() - 1) <= total,
        absolutes_fit(ps, total, spec_avail(total, ps.len() as int, height, items)),
    ensures
        width_sum(ps, total, spec_avail(total, ps.len() as int, height, items)) + 3 * (if ps.len()
            >= 1 {
            ps.len() - 1
        } else {
            0
        }) <= total,
{
    lemma_width_sum_within_avail(ps, total, spec_avail(total, ps.len() as int, height, items));
}

/// What the sized columns of a prefix took, plus what is still
/// unallocated after them, is exactly the available width.
pub open spec fn sized_sum_prefix(
    ps: Seq<Option<TableColumnWidth>>,
    total: int,
    avail: int,
    i: int,
) -> int
    decreases i,
{
    if i <= 0 {
        0
    } else {
        sized_sum_prefix(ps, total, avail, i - 1) + if ps[i - 1] is Some {
            col_width(ps, total, avail, i - 1)
        } else {
            0
        }
    }
}

proof fn lemma_sized_budget(ps: Seq<Option<TableColumnWidth>>, total: int, avail: int, i: int)
    requires
        0 <= total,
        0 <= avail,
        i <= ps.len(),
        absolutes_fit(ps, total, avail),
    ensures
        0 <= rem_after(ps, total, avail, i),
        i >= 0 ==> sized_sum_prefix(ps, total, avail, i) + rem_after(ps, total, avail, i)
            == avail,
    decreases i,
{
    if i > 0 {
        lemma_sized_budget(ps, total, avail, i - 1);
        match ps[i - 1] {
            Some(TableColumnWidth::Absolute(n)) => {},
            Some(TableColumnWidth::Percent(p)) => {
                assert(total * p >= 0) by (nonlinear_arith)
                    requires
                        total >= 0,
                        p >= 0,
                ;
                assert(percent_width(total, p as int) >= 0);
            },
            None => {},
        }
    }
}

proof fn lemma_unsized_count_bounds(ps: Seq<Option<TableColumnWidth>>, i: int)
    requires
        i <= ps.len(),
    ensures
        0 <= unsized_count_prefix(ps, i),
    decreases i,
{
    if i > 0 {
        lemma_unsized_count_bounds(ps, i - 1);
    }
}

/// The total width of a prefix is the width its sized columns took plus
/// one share for each of its unsized columns.
proof fn lemma_width_sum_decompose(
    ps: Seq<Option<TableColumnWidth>>,
    total: int,
    avail: int,
    i: int,
)
    requires
        0 <= total,
        0 <= avail,
        i <= ps.len(),
        absolutes_fit(ps, total, avail),
    ensures
        width_sum_prefix(ps, total, avail, i) == sized_sum_prefix(ps, total, avail, i)
            + unsized_count_prefix(ps, i) * (if unsized_count_prefix(ps, ps.len() as int) > 0 {
            rem_after(ps, total, avail, ps.len() as int) / unsized_count_prefix(
                ps,
                ps.len() as int,
            )
        } else {
            0
        }),
    decreases i,
{
    if i > 0 {
        lemma_width_sum_decompose(ps, total, avail, i - 1);
        lemma_unsized_count_bounds(ps, i - 1);
        if ps[i - 1] is None {
            lemma_unsized_prefix_le(ps, i, ps.len() as int);
            let share = rem_after(ps, total, avail, ps.len() as int) / unsized_count_prefix(
                ps,
                ps.len() as int,
            );
            assert(unsized_count_prefix(ps, i) * share == unsized_count_prefix(ps, i - 1) * share
                + share) by (nonlinear_arith)
                requires
                    unsized_count_prefix(ps, i) == unsized_count_prefix(ps, i - 1) + 1,
            ;
        }
    }
}

/// Counting unsized columns is monotone in the prefix length.
proof fn lemma_unsized_prefix_le(ps: Seq<Option<TableColumnWidth>>, i: int, j: int)
    requires
        0 <= i <= j,
    ensures
        unsized_count_prefix(ps, i) <= unsized_count_prefix(ps, j),
    decreases j - i,
{
    if i < j {
        lemma_unsized_prefix_le(ps, i, j - 1);
    }
}

} // verus!
