//! The table itself: record store, display permutation, column
//! registry, focus state and the navigation/sort protocol.

use vstd::prelude::*;

verus! {

use core::cmp::Ordering;
use crate::ColumnKey;
use crate::TableViewItem;
use crate::column::TableColumn;
use crate::column::TableColumnWidth;
use crate::events::EventOutcome;
use crate::events::Notification;
use crate::events::TableEvent;
use crate::sorting::refs_sorted_by;
use crate::sorting::sort_refs_by;
use vstd::relations::injective;
use vstd::set_lib::lemma_int_range;
use vstd::set_lib::set_int_range;

/// `refs` is a permutation of the storage indices `0 .. n`: right
/// length, every entry in bounds, no entry twice.  Together with
/// [`lemma_refs_surjective`] this makes `refs` a bijection onto
/// `0 .. n`.
pub open spec fn valid_refs(refs: Seq<usize>, n: int) -> bool {
    &&& refs.len() == n
    &&& forall|i: int| 0 <= i < refs.len() ==> (#[trigger] refs[i]) < n
    &&& refs.no_duplicates()
}

/// Keys are unique within the column registry.
pub open spec fn keys_unique<H>(cols: Seq<TableColumn<H>>) -> bool {
    forall|i: int, j: int|
        0 <= i < j < cols.len() ==> (#[trigger] cols[i]).column != (#[trigger] cols[j]).column
}

/// At most one column carries a sort direction.
pub open spec fn at_most_one_sorted<H>(cols: Seq<TableColumn<H>>) -> bool {
    forall|i: int, j: int|
        0 <= i < j < cols.len() ==> !((#[trigger] cols[i]).order != Ordering::Equal && (
        #[trigger] cols[j]).order != Ordering::Equal)
}

/// At most one column is marked active for selection.
pub open spec fn at_most_one_selected<H>(cols: Seq<TableColumn<H>>) -> bool {
    forall|i: int, j: int|
        0 <= i < j < cols.len() ==> !((#[trigger] cols[i]).selected && (#[trigger] cols[j]).selected)
}

/// Some column carries a sort direction.
pub open spec fn has_active_sort<H>(cols: Seq<TableColumn<H>>) -> bool {
    exists|i: int| 0 <= i < cols.len() && (#[trigger] cols[i]).order != Ordering::Equal
}

/// The position of the column driving the display order (meaningful
/// only under [`has_active_sort`]; unique under [`at_most_one_sorted`]).
pub open spec fn active_sort_idx<H>(cols: Seq<TableColumn<H>>) -> int {
    choose|i: int| 0 <= i < cols.len() && (#[trigger] cols[i]).order != Ordering::Equal
}

/// A permutation of `0 .. n` reaches every storage index below `n`.
pub proof fn lemma_refs_surjective(refs: Seq<usize>, n: int, v: usize)
    requires
        valid_refs(refs, n),
        (v as int) < n,
    ensures
        refs.contains(v),
{
    broadcast use vstd::set::group_set_axioms;
    broadcast use vstd::seq_lib::seq_to_set_is_finite;

    if !refs.contains(v) {
        let f = |u: usize| u as int;
        let ri = refs.map_values(f);
        assert(injective(f)) by {
            assert(forall|a: usize, b: usize| #[trigger] f(a) == #[trigger] f(b) ==> a == b);
        }
        refs.lemma_no_duplicates_injective(f);
        ri.unique_seq_to_set();
        let range = set_int_range(0, n);
        lemma_int_range(0, n);
        assert(ri.to_set().subset_of(range)) by {
            assert forall|x: int| ri.to_set().contains(x) implies range.contains(x) by {
                let p = choose|p: int| 0 <= p < ri.len() && ri[p] == x;
                assert(refs[p] < n);
            }
        }
        assert(!ri.to_set().contains(v as int)) by {
            if ri.to_set().contains(v as int) {
                let p = choose|p: int| 0 <= p < ri.len() && ri[p] == v as int;
                assert(refs[p] == v);
            }
        }
        ri.to_set().lemma_subset_not_in_lt(range, v as int);
        assert(false);
    }
}

/// View to select an item among a list, supporting multiple columns
/// for sorting.
///
/// Records live in `items` in insertion order; a record's position
/// there is its storage index, its stable identity.  `sort_refs` holds
/// one storage index per display row and realises the displayed order
/// without ever disturbing the storage order.  `focus` is the focused
/// display row, and `column_select` says whether directional input
/// currently moves the active-column pointer instead of the row focus.
pub struct TableView<T, H> {
    pub enabled: bool,
    pub last_size: (usize, usize),
    pub column_select: bool,
    pub columns: Vec<TableColumn<H>>,
    pub focus: usize,
    pub items: Vec<T>,
    pub sort_refs: Vec<usize>,
}

impl<T: TableViewItem<H>, H: ColumnKey> TableView<T, H> {
    /// Well-formedness: the display references are a permutation of the
    /// storage indices, the focus is in range (0 on an empty store),
    /// column keys are unique, and at most one column is sorted and at
    /// most one is marked active.
    pub open spec fn wf(&self) -> bool {
        &&& valid_refs(self.sort_refs@, self.items@.len() as int)
        &&& if self.items@.len() == 0 {
            self.focus == 0
        } else {
            (self.focus as int) < self.items@.len()
        }
        &&& keys_unique(self.columns@)
        &&& at_most_one_sorted(self.columns@)
        &&& at_most_one_selected(self.columns@)
    }

    /// The storage index shown at the focused row, if any.
    pub open spec fn spec_selected_item(&self) -> Option<usize> {
        if self.items@.len() == 0 {
            None
        } else {
            Some(self.sort_refs@[self.focus as int])
        }
    }

    /// Creates a new empty `TableView` without any columns.
    pub fn new() -> (r: Self)
        ensures
            r.wf(),
            r.enabled == true,
            r.last_size == ((0usize, 0usize)),
            r.column_select == false,
            r.columns@.len() == 0,
            r.focus == 0,
            r.items@.len() == 0,
            r.sort_refs@.len() == 0,
    {
        TableView {
            enabled: true,
            last_size: (0, 0),
            column_select: false,
            columns: Vec::new(),
            focus: 0,
            items: Vec::new(),
            sort_refs: Vec::new(),
        }
    }

    /// Disables this view: a disabled view cannot take focus.
    pub fn disable(&mut self)
        ensures
            *final(self) == (TableView { enabled: false, ..*old(self) }),
    {
        self.enabled = false;
    }

    /// Re-enables this view.
    pub fn enable(&mut self)
        ensures
            *final(self) == (TableView { enabled: true, ..*old(self) }),
    {
        self.enabled = true;
    }

    /// Enables or disables this view.
    pub fn set_enabled(&mut self, enabled: bool)
        ensures
            *final(self) == (TableView { enabled, ..*old(self) }),
    {
        self.enabled = enabled;
    }

    /// Returns `true` if this view is enabled.
    pub fn is_enabled(&self) -> (r: bool)
        ensures
            r == self.enabled,
    {
        self.enabled
    }

    /// Whether the view accepts keyboard focus: only while enabled and
    /// holding at least one item.
    pub fn take_focus(&self) -> (r: bool)
        ensures
            r == (self.enabled && self.items@.len() > 0),
    {
        self.enabled && !self.items.is_empty()
    }

    /// Returns the number of items in this table.
    pub fn len(&self) -> (r: usize)
        ensures
            r == self.items@.len(),
    {
        self.items.len()
    }

    /// Returns `true` if this table has no item.
    pub fn is_empty(&self) -> (r: bool)
        ensures
            r == (self.items@.len() == 0),
    {
        self.items.is_empty()
    }

    /// Removes all items from this view, resetting the focus to row 0.
    pub fn clear(&mut self)
        requires
            old(self).wf(),
        ensures
            final(self).wf(),
            final(self).items@.len() == 0,
            final(self).sort_refs@.len() == 0,
            final(self).focus == 0,
            final(self).enabled == old(self).enabled,
            final(self).last_size == old(self).last_size,
            final(self).column_select == old(self).column_select,
            final(self).columns@ == old(self).columns@,
    {
        self.items.clear();
        self.sort_refs.clear();
        self.focus = 0;
    }

    /// Returns the index of the currently selected row, or `None` on an
    /// empty table.
    pub fn selected_row(&self) -> (r: Option<usize>)
        ensures
            r == (if self.items@.len() == 0 {
                Option::<usize>::None
            } else {
                Some(self.focus)
            }),
    {
        if self.items.is_empty() {
            None
        } else {
            Some(self.focus)
        }
    }

    /// Selects the row at the specified index.
    pub fn select_row(&mut self, row: usize)
        requires
            old(self).wf(),
            row == 0 || (row as int) < old(self).items@.len(),
        ensures
            final(self).wf(),
            *final(self) == (TableView { focus: row, ..*old(self) }),
    {
        self.focus = row;
    }

    /// Returns the index within the underlying storage of the currently
    /// selected item, or `None` on an empty table.
    pub fn selected_item(&self) -> (r: Option<usize>)
        requires
            self.wf(),
        ensures
            r == self.spec_selected_item(),
    {
        if self.items.is_empty() {
            None
        } else {
            Some(self.sort_refs[self.focus])
        }
    }

    /// Returns an immutable reference to the item at the specified
    /// index within the underlying storage, or `None` past the end.
    pub fn item(&self, index: usize) -> (r: Option<&T>)
        ensures
            (index as int) < self.items@.len() ==> r == Some(&self.items@[index as int]),
            (index as int) >= self.items@.len() ==> r is None,
    {
        if index < self.items.len() {
            Some(&self.items[index])
        } else {
            None
        }
    }
}

/// The identity permutation `[0, 1, ..., n-1]`.
pub open spec fn identity_refs(n: int) -> Seq<usize> {
    Seq::new(n as nat, |i: int| i as usize)
}

/// The column flags after a sort by `column` in direction `order`:
/// exactly the matching columns are selected and carry `order`, every
/// other column carries no direction.  All other fields are kept.
pub open spec fn cols_sorted_to<H>(
    cols: Seq<TableColumn<H>>,
    column: H,
    order: Ordering,
) -> Seq<TableColumn<H>> {
    Seq::new(
        cols.len(),
        |i: int|
            TableColumn {
                selected: cols[i].column == column,
                order: if cols[i].column == column {
                    order
                } else {
                    Ordering::Equal
                },
                ..cols[i]
            },
    )
}

/// Like [`cols_sorted_to`], but each matching column takes its own
/// configured default direction.
pub open spec fn cols_defaulted_to<H>(cols: Seq<TableColumn<H>>, column: H) -> Seq<
    TableColumn<H>,
> {
    Seq::new(
        cols.len(),
        |i: int|
            TableColumn {
                selected: cols[i].column == column,
                order: if cols[i].column == column {
                    cols[i].default_order
                } else {
                    Ordering::Equal
                },
                ..cols[i]
            },
    )
}

/// The key and direction of the column driving the display order
/// (meaningful only under [`has_active_sort`]).
pub open spec fn active_sort_of<H>(cols: Seq<TableColumn<H>>) -> (H, Ordering) {
    (cols[active_sort_idx(cols)].column, cols[active_sort_idx(cols)].order)
}

impl<T: TableViewItem<H>, H: ColumnKey> TableView<T, H> {
    /// The position of the column with the given key, or `None` if the
    /// key is not registered.
    fn column_position(&self, column: H) -> (r: Option<usize>)
        ensures
            match r {
                Some(i) => (i as int) < self.columns@.len() && self.columns@[i as int].column
                    == column,
                None => forall|j: int|
                    0 <= j < self.columns@.len() ==> (#[trigger] self.columns@[j]).column
                        != column,
            },
    {
        let n = self.columns.len();
        let mut i: usize = 0;
        while i < n
            invariant
                n == self.columns@.len(),
                i <= n,
                forall|j: int|
                    0 <= j < i as int ==> (#[trigger] self.columns@[j]).column != column,
            decreases n - i,
        {
            let k = self.columns[i].column;
            if k.key_eq(&column) {
                return Some(i);
            }
            i = i + 1;
        }
        None
    }

    /// Rewrites every column's `selected` and `order` flag for a sort
    /// by `column`: with `use_default` the matching column takes its
    /// configured default direction, otherwise it takes `order`.
    fn set_sort_flags(&mut self, column: H, order: Ordering, use_default: bool)
        ensures
            final(self).columns@ == (if use_default {
                cols_defaulted_to(old(self).columns@, column)
            } else {
                cols_sorted_to(old(self).columns@, column, order)
            }),
            final(self).enabled == old(self).enabled,
            final(self).last_size == old(self).last_size,
            final(self).column_select == old(self).column_select,
            final(self).focus == old(self).focus,
            final(self).items@ == old(self).items@,
            final(self).sort_refs@ == old(self).sort_refs@,
    {
        let ghost target: Seq<TableColumn<H>> = if use_default {
            cols_defaulted_to(old(self).columns@, column)
        } else {
            cols_sorted_to(old(self).columns@, column, order)
        };
        let n = self.columns.len();
        let mut i: usize = 0;
        while i < n
            invariant
                n == self.columns@.len(),
                i <= n,
                target.len() == n as int,
                target == (if use_default {
                    cols_defaulted_to(old(self).columns@, column)
                } else {
                    cols_sorted_to(old(self).columns@, column, order)
                }),
                forall|j: int| 0 <= j < i as int ==> self.columns@[j] == target[j],
                forall|j: int|
                    i as int <= j < n as int ==> self.columns@[j] == old(self).columns@[j],
                self.enabled == old(self).enabled,
                self.last_size == old(self).last_size,
                self.column_select == old(self).column_select,
                self.focus == old(self).focus,
                self.items@ == old(self).items@,
                self.sort_refs@ == old(self).sort_refs@,
            decreases n - i,
        {
            let k = self.columns[i].column;
            let m = k.key_eq(&column);
            self.columns[i].selected = m;
            if m {
                if use_default {
                    let d = self.columns[i].default_order;
                    self.columns[i].order = d;
                } else {
                    self.columns[i].order = order;
                }
            } else {
                self.columns[i].order = Ordering::Equal;
            }
            i = i + 1;
        }
        proof {
            assert(self.columns@ =~= target);
        }
    }

    /// Sets the initially active column of the table: the matching
    /// column becomes selected with its default direction, every other
    /// column loses direction and selection.  Unknown keys leave the
    /// table unchanged.
    pub fn default_column(self, column: H) -> (r: Self)
        requires
            self.wf(),
        ensures
            r.wf(),
            (forall|j: int|
                0 <= j < self.columns@.len() ==> (#[trigger] self.columns@[j]).column != column)
                ==> r == self,
            (exists|j: int|
                0 <= j < self.columns@.len() && (#[trigger] self.columns@[j]).column == column)
                ==> r.columns@ == cols_defaulted_to(self.columns@, column) && r.items@
                == self.items@ && r.sort_refs@ == self.sort_refs@ && r.focus == self.focus
                && r.enabled == self.enabled && r.last_size == self.last_size && r.column_select
                == self.column_select,
    {
        let mut s = self;
        if s.column_position(column).is_some() {
            s.set_sort_flags(column, Ordering::Less, true);
        }
        s
    }

    /// The key and direction of the currently sorted column, if any.
    fn sort(&self) -> (r: Option<(H, Ordering)>)
        requires
            at_most_one_sorted(self.columns@),
        ensures
            has_active_sort(self.columns@) ==> r == Some(active_sort_of(self.columns@)),
            !has_active_sort(self.columns@) ==> r is None,
    {
        let n = self.columns.len();
        let mut i: usize = 0;
        while i < n
            invariant
                n == self.columns@.len(),
                i <= n,
                at_most_one_sorted(self.columns@),
                forall|j: int|
                    0 <= j < i as int ==> (#[trigger] self.columns@[j]).order == Ordering::Equal,
            decreases n - i,
        {
            if !matches!(self.columns[i].order, Ordering::Equal) {
                proof {
                    let ai = active_sort_idx(self.columns@);
                    assert(0 <= ai < self.columns@.len() && self.columns@[ai].order
                        != Ordering::Equal);
                    if ai != i as int {
                        assert(false);
                    }
                }
                return Some((self.columns[i].column, self.columns[i].order));
            }
            i = i + 1;
        }
        None
    }

    /// Selects the item at the specified index within the underlying
    /// storage: the focus moves to the display row showing it.  Out of
    /// range, nothing changes.
    pub fn select_item(&mut self, item_index: usize)
        requires
            old(self).wf(),
        ensures
            final(self).wf(),
            (item_index as int) >= old(self).items@.len() ==> *final(self) == *old(self),
            (item_index as int) < old(self).items@.len() ==> *final(self) == (TableView {
                focus: final(self).focus,
                ..*old(self)
            }) && final(self).sort_refs@[final(self).focus as int] == item_index
                && (final(self).focus as int) < old(self).items@.len(),
    {
        if item_index < self.items.len() {
            proof {
                lemma_refs_surjective(
                    self.sort_refs@,
                    self.items@.len() as int,
                    item_index,
                );
            }
            let n = self.sort_refs.len();
            let mut row: usize = 0;
            while row < n
                invariant
                    *self == *old(self),
                    old(self).wf(),
                    (item_index as int) < old(self).items@.len(),
                    n == self.sort_refs@.len(),
                    row <= n,
                    self.sort_refs@.contains(item_index),
                    forall|p: int|
                        0 <= p < row as int ==> (#[trigger] self.sort_refs@[p]) != item_index,
                decreases n - row,
            {
                if self.sort_refs[row] == item_index {
                    self.focus = row;
                    return;
                }
                row = row + 1;
            }
            proof {
                let w = choose|p: int|
                    0 <= p < self.sort_refs@.len() && self.sort_refs@[p] == item_index;
                assert(false);
            }
        }
    }

    /// Sorts the table in the passed `order` by the values of `column`.
    ///
    /// The storage order is untouched: only the display permutation
    /// moves, and the focus follows the record that was selected before
    /// the sort.  Unknown keys leave the table unchanged.
    pub fn sort_by(&mut self, column: H, order: Ordering)
        requires
            old(self).wf(),
        ensures
            final(self).wf(),
            final(self).enabled == old(self).enabled,
            final(self).last_size == old(self).last_size,
            final(self).column_select == old(self).column_select,
            final(self).items@ == old(self).items@,
            (forall|j: int|
                0 <= j < old(self).columns@.len() ==> (#[trigger] old(self).columns@[j]).column
                    != column) ==> *final(self) == *old(self),
            (exists|j: int|
                0 <= j < old(self).columns@.len() && (#[trigger] old(self).columns@[j]).column
                    == column) ==> final(self).columns@ == cols_sorted_to(
                old(self).columns@,
                column,
                order,
            ) && (if old(self).items@.len() == 0 {
                final(self).sort_refs@ == old(self).sort_refs@
                    && final(self).focus == old(self).focus
            } else {
                &&& final(self).sort_refs@.to_multiset() == old(self).sort_refs@.to_multiset()
                &&& refs_sorted_by(old(self).items@, final(self).sort_refs@, column, order)
                &&& final(self).sort_refs@[final(self).focus as int]
                    == old(self).sort_refs@[old(self).focus as int]
            }),
    {
        if self.column_position(column).is_none() {
            return;
        }
        self.set_sort_flags(column, order, false);
        if !self.items.is_empty() {
            let old_item = self.sort_refs[self.focus];
            sort_refs_by(&self.items, &mut self.sort_refs, column, order);
            self.select_item(old_item);
        }
    }

    /// Sets the contained items of the table.  The storage order of
    /// `items` is preserved; if a column is currently sorted, the new
    /// display order reflects that sort, otherwise it is the storage
    /// order.  The focus is clamped into the new range.
    pub fn set_items(&mut self, items: Vec<T>)
        requires
            old(self).wf(),
        ensures
            final(self).wf(),
            final(self).items@ == items@,
            final(self).enabled == old(self).enabled,
            final(self).last_size == old(self).last_size,
            final(self).column_select == old(self).column_select,
            !has_active_sort(old(self).columns@) ==> final(self).columns@ == old(self).columns@
                && final(self).sort_refs@ == identity_refs(items@.len() as int)
                && final(self).focus as int == clamped(
                old(self).focus as int,
                items@.len() as int,
            ),
            has_active_sort(old(self).columns@) ==> final(self).columns@ == cols_sorted_to(
                old(self).columns@,
                active_sort_of(old(self).columns@).0,
                active_sort_of(old(self).columns@).1,
            ) && (if items@.len() == 0 {
                final(self).sort_refs@ == identity_refs(0)
            } else {
                refs_sorted_by(
                    items@,
                    final(self).sort_refs@,
                    active_sort_of(old(self).columns@).0,
                    active_sort_of(old(self).columns@).1,
                )
            }),
    {
        self.items = items;
        self.sort_refs = Vec::new();
        let n = self.items.len();
        let mut i: usize = 0;
        while i < n
            invariant
                n == self.items@.len(),
                i <= n,
                self.items@ == items@,
                self.columns@ == old(self).columns@,
                self.focus == old(self).focus,
                self.enabled == old(self).enabled,
                self.last_size == old(self).last_size,
                self.column_select == old(self).column_select,
                self.sort_refs@ == identity_refs(i as int),
            decreases n - i,
        {
            self.sort_refs.push(i);
            proof {
                assert(self.sort_refs@ =~= identity_refs(i as int + 1));
            }
            i = i + 1;
        }
        if n == 0 {
            self.focus = 0;
        } else if self.focus >= n {
            self.focus = n - 1;
        }
        proof {
            assert(forall|p: int|
                0 <= p < n as int ==> (#[trigger] self.sort_refs@[p]) == p as usize);
            assert(self.sort_refs@.no_duplicates()) by {
                assert(forall|p: int, q: int|
                    0 <= p < q < n as int ==> (#[trigger] self.sort_refs@[p]) != (
                    #[trigger] self.sort_refs@[q]));
            }
            assert(self.wf());
        }
        if let Some((column, order)) = self.sort() {
            self.sort_by(column, order);
        }
    }

    /// Sets the contained items of the table; chainable variant.
    pub fn items(self, items: Vec<T>) -> (r: Self)
        requires
            self.wf(),
        ensures
            r.wf(),
            r.items@ == items@,
            r.enabled == self.enabled,
            !has_active_sort(self.columns@) ==> r.columns@ == self.columns@ && r.sort_refs@
                == identity_refs(items@.len() as int),
    {
        let mut s = self;
        s.set_items(items);
        s
    }
}

/// `v` with everything above the removed storage index `i` shifted
/// down by one.
pub open spec fn dec_above(v: usize, i: usize) -> usize {
    if v > i {
        (v - 1) as usize
    } else {
        v
    }
}

/// Clamps a focus candidate into `0 .. len` (0 on an empty store).
pub open spec fn clamped(f: int, len: int) -> int {
    if len <= 0 {
        0
    } else if f >= len {
        len - 1
    } else {
        f
    }
}

/// Where the focus lands after a removal: one row up if the focused
/// record itself was removed, then clamped into the new range.
pub open spec fn focus_after_remove(focus: int, selected_removed: bool, new_len: int) -> int {
    clamped(
        if selected_removed {
            if focus > 0 {
                focus - 1
            } else {
                0
            }
        } else {
            focus
        },
        new_len,
    )
}

impl<T: TableViewItem<H>, H: ColumnKey> TableView<T, H> {
    /// The display row showing storage index `item_index`.
    fn row_of(&self, item_index: usize) -> (r: usize)
        requires
            self.sort_refs@.contains(item_index),
        ensures
            (r as int) < self.sort_refs@.len(),
            self.sort_refs@[r as int] == item_index,
    {
        let n = self.sort_refs.len();
        let mut row: usize = 0;
        while row < n
            invariant
                self.sort_refs@.contains(item_index),
                n == self.sort_refs@.len(),
                row <= n,
                forall|p: int|
                    0 <= p < row as int ==> (#[trigger] self.sort_refs@[p]) != item_index,
            decreases n - row,
        {
            if self.sort_refs[row] == item_index {
                return row;
            }
            row = row + 1;
        }
        proof {
            let w = choose|p: int|
                0 <= p < self.sort_refs@.len() && self.sort_refs@[p] == item_index;
            assert(false);
        }
        0
    }

    /// Adds a column for the specified table column of type `H`, with a
    /// title for its visual display.  The provided callback can further
    /// configure the created [`TableColumn`](crate::TableColumn); the
    /// column's identity, flags and computed width are set by the table
    /// itself.  The first column added becomes the default sort column.
    /// A key that is already registered leaves the table unchanged.
    pub fn column<C: FnOnce(TableColumn<H>) -> TableColumn<H>>(
        self,
        column: H,
        title: String,
        callback: C,
    ) -> (r: Self)
        requires
            self.wf(),
            forall|c: TableColumn<H>| callback.requires((c,)),
        ensures
            r.wf(),
            (exists|j: int|
                0 <= j < self.columns@.len() && (#[trigger] self.columns@[j]).column == column)
                ==> r == self,
            (forall|j: int|
                0 <= j < self.columns@.len() ==> (#[trigger] self.columns@[j]).column != column)
                ==> {
                &&& r.columns@.len() == self.columns@.len() + 1
                &&& r.columns@[self.columns@.len() as int].column == column
                &&& r.items@ == self.items@
                &&& r.sort_refs@ == self.sort_refs@
                &&& r.focus == self.focus
                &&& r.enabled == self.enabled
                &&& r.last_size == self.last_size
                &&& r.column_select == self.column_select
                &&& (self.columns@.len() > 0 ==> r.columns@.subrange(
                    0,
                    self.columns@.len() as int,
                ) == self.columns@ && r.columns@.last().selected == false
                    && r.columns@.last().order == Ordering::Equal)
                &&& (self.columns@.len() == 0 ==> r.columns@[0].selected == true
                    && r.columns@[0].order == r.columns@[0].default_order)
            },
    {
        let mut s = self;
        if s.column_position(column).is_some() {
            return s;
        }
        let configured = callback(TableColumn::new(column, title));
        let fresh = TableColumn {
            column,
            selected: false,
            order: Ordering::Equal,
            width: 0,
            ..configured
        };
        s.columns.push(fresh);
        if s.columns.len() == 1 {
            s.default_column(column)
        } else {
            s
        }
    }

    /// Inserts a new item at the end of the storage.  With no active
    /// sort its display row is the new last row; with an active sort
    /// the display order is re-established and the focus keeps
    /// following the record it was on.
    pub fn insert_item(&mut self, item: T)
        requires
            old(self).wf(),
        ensures
            final(self).wf(),
            final(self).items@ == old(self).items@.push(item),
            final(self).enabled == old(self).enabled,
            final(self).last_size == old(self).last_size,
            final(self).column_select == old(self).column_select,
            !has_active_sort(old(self).columns@) ==> final(self).columns@ == old(self).columns@
                && final(self).sort_refs@ == old(self).sort_refs@.push(
                old(self).items@.len() as usize,
            ) && final(self).focus == old(self).focus,
            has_active_sort(old(self).columns@) ==> {
                &&& final(self).columns@ == cols_sorted_to(
                    old(self).columns@,
                    active_sort_of(old(self).columns@).0,
                    active_sort_of(old(self).columns@).1,
                )
                &&& final(self).sort_refs@.to_multiset() == old(self).sort_refs@.push(
                    old(self).items@.len() as usize,
                ).to_multiset()
                &&& refs_sorted_by(
                    old(self).items@.push(item),
                    final(self).sort_refs@,
                    active_sort_of(old(self).columns@).0,
                    active_sort_of(old(self).columns@).1,
                )
                &&& final(self).sort_refs@[final(self).focus as int] == old(self).sort_refs@.push(
                    old(self).items@.len() as usize,
                )[old(self).focus as int]
            },
    {
        let new_index = self.items.len();
        self.items.push(item);
        self.sort_refs.push(new_index);
        proof {
            assert(self.sort_refs@.no_duplicates()) by {
                assert(forall|p: int, q: int|
                    0 <= p < q < self.sort_refs@.len() ==> (#[trigger] self.sort_refs@[p]) != (
                    #[trigger] self.sort_refs@[q]));
            }
            assert(self.wf());
        }
        if let Some((column, order)) = self.sort() {
            self.sort_by(column, order);
        }
    }

    /// Removes the item at the specified index within the underlying
    /// storage and returns it; `None` past the end.  Every display
    /// reference above the removed storage index is decremented by one,
    /// and the focus moves one row up when the focused record itself
    /// was removed.
    pub fn remove_item(&mut self, item_index: usize) -> (r: Option<T>)
        requires
            old(self).wf(),
        ensures
            final(self).wf(),
            (item_index as int) >= old(self).items@.len() ==> r is None && *final(self) == *old(
                self,
            ),
            (item_index as int) < old(self).items@.len() ==> {
                &&& r == Some(old(self).items@[item_index as int])
                &&& final(self).items@ == old(self).items@.remove(item_index as int)
                &&& final(self).columns@ == old(self).columns@
                &&& final(self).enabled == old(self).enabled
                &&& final(self).last_size == old(self).last_size
                &&& final(self).column_select == old(self).column_select
                &&& exists|row: int|
                    0 <= row < old(self).sort_refs@.len() && old(self).sort_refs@[row]
                        == item_index && final(self).sort_refs@ == old(self).sort_refs@.remove(
                        row,
                    ).map_values(|v: usize| dec_above(v, item_index))
                &&& final(self).focus as int == focus_after_remove(
                    old(self).focus as int,
                    old(self).sort_refs@[old(self).focus as int] == item_index,
                    old(self).items@.len() - 1,
                )
            },
    {
        let n = self.items.len();
        if item_index >= n {
            return None;
        }
        let sel = self.sort_refs[self.focus];
        if sel == item_index {
            if self.focus > 0 {
                self.focus = self.focus - 1;
            }
        }
        proof {
            lemma_refs_surjective(self.sort_refs@, n as int, item_index);
        }
        let row = self.row_of(item_index);
        let ghost before: Seq<usize> = self.sort_refs@;
        self.sort_refs.remove(row);
        let ghost mid: Seq<usize> = self.sort_refs@;
        proof {
            assert(forall|p: int| 0 <= p < mid.len() ==> (#[trigger] mid[p]) != item_index);
        }
        let len2 = self.sort_refs.len();
        let ghost fmid: usize = self.focus;
        let mut k: usize = 0;
        while k < len2
            invariant
                len2 == self.sort_refs@.len(),
                k <= len2,
                mid.len() == len2 as int,
                forall|p: int| 0 <= p < mid.len() ==> (#[trigger] mid[p]) != item_index,
                forall|p: int| 0 <= p < mid.len() ==> (#[trigger] mid[p]) < n,
                forall|p: int|
                    0 <= p < k as int ==> (#[trigger] self.sort_refs@[p]) == dec_above(
                        mid[p],
                        item_index,
                    ),
                forall|p: int|
                    k as int <= p < len2 as int ==> (#[trigger] self.sort_refs@[p]) == mid[p],
                self.items@ == old(self).items@,
                self.columns@ == old(self).columns@,
                self.enabled == old(self).enabled,
                self.last_size == old(self).last_size,
                self.column_select == old(self).column_select,
                self.focus == fmid,
            decreases len2 - k,
        {
            let v = self.sort_refs[k];
            if v > item_index {
                self.sort_refs[k] = v - 1;
            }
            k = k + 1;
        }
        proof {
            assert(self.sort_refs@ =~= mid.map_values(|v: usize| dec_above(v, item_index)));
        }
        let removed = self.items.remove(item_index);
        let n2 = self.items.len();
        if n2 == 0 {
            self.focus = 0;
        } else if self.focus >= n2 {
            self.focus = n2 - 1;
        }
        proof {
            let dec = self.sort_refs@;
            assert(dec.no_duplicates()) by {
                assert(forall|p: int, q: int|
                    0 <= p < q < dec.len() ==> (#[trigger] dec[p]) != (#[trigger] dec[q]));
            }
            assert(forall|p: int| 0 <= p < dec.len() ==> (#[trigger] dec[p]) < n2);
            assert(self.wf());
        }
        Some(removed)
    }

    /// Removes all items from the underlying storage and returns them,
    /// leaving the table empty with the focus on row 0.
    pub fn take_items(&mut self) -> (r: Vec<T>)
        requires
            old(self).wf(),
        ensures
            final(self).wf(),
            r@ == old(self).items@,
            final(self).items@.len() == 0,
            final(self).sort_refs@.len() == 0,
            final(self).focus == 0,
            final(self).columns@ == old(self).columns@,
            final(self).enabled == old(self).enabled,
            final(self).last_size == old(self).last_size,
            final(self).column_select == old(self).column_select,
    {
        self.focus = 0;
        self.sort_refs = Vec::new();
        let mut out: Vec<T> = Vec::new();
        core::mem::swap(&mut out, &mut self.items);
        out
    }
}

/// The column flags after cancelling column-select mode: selection
/// falls back to the columns that carry a sort direction.
pub open spec fn cols_cancelled<H>(cols: Seq<TableColumn<H>>) -> Seq<TableColumn<H>> {
    Seq::new(
        cols.len(),
        |i: int| TableColumn { selected: cols[i].order != Ordering::Equal, ..cols[i] },
    )
}

/// The column flags with exactly the column at `t` selected.
pub open spec fn cols_selected_at<H>(cols: Seq<TableColumn<H>>, t: int) -> Seq<TableColumn<H>> {
    Seq::new(cols.len(), |i: int| TableColumn { selected: i == t, ..cols[i] })
}

/// The position of the column marked active for selection, or 0 when
/// none is (unique under [`at_most_one_selected`]).
pub open spec fn active_col_idx<H>(cols: Seq<TableColumn<H>>) -> int {
    if exists|i: int| 0 <= i < cols.len() && (#[trigger] cols[i]).selected {
        choose|i: int| 0 <= i < cols.len() && (#[trigger] cols[i]).selected
    } else {
        0
    }
}

/// The direction a "commit sort" on the active column applies: a newly
/// chosen column takes its configured default, committing the already
/// sorted column toggles between ascending and descending.
pub open spec fn commit_order<H>(cols: Seq<TableColumn<H>>) -> Ordering {
    let next = active_col_idx(cols);
    let cur = if has_active_sort(cols) {
        active_sort_idx(cols)
    } else {
        0
    };
    if cur != next {
        cols[next].default_order
    } else if cols[cur].order == Ordering::Less {
        Ordering::Greater
    } else {
        Ordering::Less
    }
}

impl<T: TableViewItem<H>, H: ColumnKey> TableView<T, H> {
    /// The position of the column marked active, or 0 when none is.
    fn active_column(&self) -> (r: usize)
        requires
            at_most_one_selected(self.columns@),
        ensures
            r as int == active_col_idx(self.columns@),
            self.columns@.len() > 0 ==> (r as int) < self.columns@.len(),
    {
        let n = self.columns.len();
        let mut i: usize = 0;
        while i < n
            invariant
                n == self.columns@.len(),
                i <= n,
                at_most_one_selected(self.columns@),
                forall|j: int| 0 <= j < i as int ==> !(#[trigger] self.columns@[j]).selected,
            decreases n - i,
        {
            if self.columns[i].selected {
                proof {
                    let w = active_col_idx(self.columns@);
                    assert(0 <= w < self.columns@.len() && self.columns@[w].selected);
                    if w != i as int {
                        assert(false);
                    }
                }
                return i;
            }
            i = i + 1;
        }
        0
    }

    /// The position of the sorted column, or 0 when none is sorted.
    fn sorted_column_or_zero(&self) -> (r: usize)
        requires
            at_most_one_sorted(self.columns@),
        ensures
            r as int == (if has_active_sort(self.columns@) {
                active_sort_idx(self.columns@)
            } else {
                0int
            }),
    {
        let n = self.columns.len();
        let mut i: usize = 0;
        while i < n
            invariant
                n == self.columns@.len(),
                i <= n,
                at_most_one_sorted(self.columns@),
                forall|j: int|
                    0 <= j < i as int ==> (#[trigger] self.columns@[j]).order == Ordering::Equal,
            decreases n - i,
        {
            if !matches!(self.columns[i].order, Ordering::Equal) {
                proof {
                    let w = active_sort_idx(self.columns@);
                    assert(0 <= w < self.columns@.len() && self.columns@[w].order
                        != Ordering::Equal);
                    if w != i as int {
                        assert(false);
                    }
                }
                return i;
            }
            i = i + 1;
        }
        0
    }

    /// Leaves column-select mode; the selection marks fall back to the
    /// sorted column, if any.
    fn column_cancel(&mut self)
        requires
            old(self).wf(),
        ensures
            final(self).wf(),
            final(self).column_select == false,
            final(self).columns@ == cols_cancelled(old(self).columns@),
            final(self).focus == old(self).focus,
            final(self).items@ == old(self).items@,
            final(self).sort_refs@ == old(self).sort_refs@,
            final(self).enabled == old(self).enabled,
            final(self).last_size == old(self).last_size,
    {
        self.column_select = false;
        let ghost target: Seq<TableColumn<H>> = cols_cancelled(old(self).columns@);
        let n = self.columns.len();
        let mut i: usize = 0;
        while i < n
            invariant
                n == self.columns@.len(),
                i <= n,
                target == cols_cancelled(old(self).columns@),
                target.len() == n as int,
                forall|j: int| 0 <= j < i as int ==> self.columns@[j] == target[j],
                forall|j: int|
                    i as int <= j < n as int ==> self.columns@[j] == old(self).columns@[j],
                self.column_select == false,
                self.focus == old(self).focus,
                self.items@ == old(self).items@,
                self.sort_refs@ == old(self).sort_refs@,
                self.enabled == old(self).enabled,
                self.last_size == old(self).last_size,
            decreases n - i,
        {
            let sorted = !matches!(self.columns[i].order, Ordering::Equal);
            self.columns[i].selected = sorted;
            i = i + 1;
        }
        proof {
            assert(self.columns@ =~= cols_cancelled(old(self).columns@));
        }
    }

    /// Moves the active-column mark one position to the right; `false`
    /// at the last column.
    fn column_next(&mut self) -> (r: bool)
        requires
            old(self).wf(),
            old(self).columns@.len() > 0,
        ensures
            final(self).wf(),
            r == (active_col_idx(old(self).columns@) + 1 < old(self).columns@.len()),
            !r ==> *final(self) == *old(self),
            r ==> final(self).columns@ == cols_selected_at(
                old(self).columns@,
                active_col_idx(old(self).columns@) + 1,
            ) && *final(self) == (TableView { columns: final(self).columns, ..*old(self) }),
    {
        let column = self.active_column();
        if column < self.columns.len() - 1 {
            self.columns[column].selected = false;
            let next = column + 1;
            self.columns[next].selected = true;
            proof {
                assert(self.columns@ =~= cols_selected_at(
                    old(self).columns@,
                    active_col_idx(old(self).columns@) + 1,
                ));
            }
            true
        } else {
            false
        }
    }

    /// Moves the active-column mark one position to the left; `false`
    /// at the first column.
    fn column_prev(&mut self) -> (r: bool)
        requires
            old(self).wf(),
            old(self).columns@.len() > 0,
        ensures
            final(self).wf(),
            r == (active_col_idx(old(self).columns@) > 0),
            !r ==> *final(self) == *old(self),
            r ==> final(self).columns@ == cols_selected_at(
                old(self).columns@,
                active_col_idx(old(self).columns@) - 1,
            ) && *final(self) == (TableView { columns: final(self).columns, ..*old(self) }),
    {
        let column = self.active_column();
        if column > 0 {
            self.columns[column].selected = false;
            let prev = column - 1;
            self.columns[prev].selected = true;
            proof {
                assert(self.columns@ =~= cols_selected_at(
                    old(self).columns@,
                    active_col_idx(old(self).columns@) - 1,
                ));
            }
            true
        } else {
            false
        }
    }

    /// Moves the focus up by `n` display rows, stopping at the first.
    fn focus_up(&mut self, n: usize)
        ensures
            final(self).focus == (if old(self).focus >= n {
                (old(self).focus - n) as usize
            } else {
                0usize
            }),
            *final(self) == (TableView { focus: final(self).focus, ..*old(self) }),
    {
        if self.focus >= n {
            self.focus = self.focus - n;
        } else {
            self.focus = 0;
        }
    }

    /// Moves the focus down by `n` display rows, stopping at the last.
    fn focus_down(&mut self, n: usize)
        requires
            old(self).wf(),
        ensures
            final(self).wf(),
            final(self).focus as int == clamped(
                old(self).focus as int + n as int,
                old(self).items@.len() as int,
            ),
            *final(self) == (TableView { focus: final(self).focus, ..*old(self) }),
    {
        let len = self.items.len();
        if len == 0 {
            self.focus = 0;
        } else {
            let room = len - 1 - self.focus;
            if n >= room {
                self.focus = len - 1;
            } else {
                self.focus = self.focus + n;
            }
        }
    }

    /// Commits a sort on the active column: a newly chosen column takes
    /// its configured default direction, the already sorted column
    /// toggles between ascending and descending; every other column
    /// loses its direction.
    fn commit_column_sort(&mut self)
        requires
            old(self).wf(),
            old(self).columns@.len() > 0,
        ensures
            final(self).wf(),
            final(self).enabled == old(self).enabled,
            final(self).last_size == old(self).last_size,
            final(self).column_select == old(self).column_select,
            final(self).items@ == old(self).items@,
            final(self).columns@ == cols_sorted_to(
                old(self).columns@,
                old(self).columns@[active_col_idx(old(self).columns@)].column,
                commit_order(old(self).columns@),
            ),
            if old(self).items@.len() == 0 {
                final(self).sort_refs@ == old(self).sort_refs@ && final(self).focus == old(
                    self,
                ).focus
            } else {
                &&& final(self).sort_refs@.to_multiset() == old(self).sort_refs@.to_multiset()
                &&& refs_sorted_by(
                    old(self).items@,
                    final(self).sort_refs@,
                    old(self).columns@[active_col_idx(old(self).columns@)].column,
                    commit_order(old(self).columns@),
                )
                &&& final(self).sort_refs@[final(self).focus as int]
                    == old(self).sort_refs@[old(self).focus as int]
            },
    {
        let next = self.active_column();
        let column = self.columns[next].column;
        let current = self.sorted_column_or_zero();
        let order = if current != next {
            self.columns[next].default_order
        } else if matches!(self.columns[current].order, Ordering::Less) {
            Ordering::Greater
        } else {
            Ordering::Less
        };
        self.sort_by(column, order);
    }
}

/// The width policy of every column, in display order.
pub open spec fn policies_of<H>(cols: Seq<TableColumn<H>>) -> Seq<Option<TableColumnWidth>> {
    Seq::new(cols.len(), |i: int| cols[i].requested_width)
}

impl<T: TableViewItem<H>, H: ColumnKey> TableView<T, H> {
    /// The outcome `on_event` reports.  Enter raises a sort or submit
    /// notification when the host bound a handler for it; otherwise an
    /// event that moved the focus raises a selection notification; an
    /// event that moved nothing and notified nobody is ignored, so the
    /// host may bubble it to an ancestor.
    pub open spec fn spec_event_outcome(
        pre: Self,
        post: Self,
        event: TableEvent,
        has_on_sort: bool,
        has_on_submit: bool,
    ) -> EventOutcome<H> {
        if event == TableEvent::Enter && pre.column_select && pre.columns@.len() > 0
            && has_on_sort {
            EventOutcome::Consumed(
                Some(
                    Notification::Sort(
                        pre.columns@[active_col_idx(pre.columns@)].column,
                        commit_order(pre.columns@),
                    ),
                ),
            )
        } else if event == TableEvent::Enter && !pre.column_select && pre.items@.len() > 0
            && has_on_submit {
            EventOutcome::Consumed(
                Some(Notification::Submit(pre.focus, pre.sort_refs@[pre.focus as int])),
            )
        } else if pre.items@.len() > 0 && post.focus != pre.focus {
            EventOutcome::Consumed(
                Some(Notification::Select(post.focus, post.sort_refs@[post.focus as int])),
            )
        } else {
            EventOutcome::Ignored
        }
    }

    /// Column-select mode was left with the focus landing on row `f`;
    /// the display order is untouched.
    pub open spec fn cancelled_to(pre: Self, post: Self, f: int) -> bool {
        &&& post.column_select == false
        &&& post.columns@ == cols_cancelled(pre.columns@)
        &&& post.focus as int == f
        &&& post.sort_refs@ == pre.sort_refs@
    }

    /// A sort was committed on the active column: a newly chosen column
    /// takes its default direction, the already sorted one toggles, and
    /// the display order follows while the focus keeps its record.
    pub open spec fn committed_to(pre: Self, post: Self) -> bool {
        &&& post.column_select == pre.column_select
        &&& post.columns@ == cols_sorted_to(
            pre.columns@,
            pre.columns@[active_col_idx(pre.columns@)].column,
            commit_order(pre.columns@),
        )
        &&& if pre.items@.len() == 0 {
            post.sort_refs@ == pre.sort_refs@ && post.focus == pre.focus
        } else {
            &&& post.sort_refs@.to_multiset() == pre.sort_refs@.to_multiset()
            &&& refs_sorted_by(
                pre.items@,
                post.sort_refs@,
                pre.columns@[active_col_idx(pre.columns@)].column,
                commit_order(pre.columns@),
            )
            &&& post.sort_refs@[post.focus as int] == pre.sort_refs@[pre.focus as int]
        }
    }

    /// Handles one keyboard event.  `has_on_sort` and `has_on_submit`
    /// say whether the host bound the matching notification handlers;
    /// they decide whether Enter is consumed, exactly as the returned
    /// outcome states.
    pub fn on_event(&mut self, event: TableEvent, has_on_sort: bool, has_on_submit: bool) -> (r:
        EventOutcome<H>)
        requires
            old(self).wf(),
        ensures
            final(self).wf(),
            final(self).items@ == old(self).items@,
            final(self).enabled == old(self).enabled,
            final(self).last_size == old(self).last_size,
            r == Self::spec_event_outcome(
                *old(self),
                *final(self),
                event,
                has_on_sort,
                has_on_submit,
            ),
            event == TableEvent::Right && !old(self).column_select ==> *final(self) == (TableView {
                column_select: true,
                ..*old(self)
            }),
            event == TableEvent::Right && old(self).column_select ==> (if old(
                self,
            ).columns@.len() > 0 && active_col_idx(old(self).columns@) + 1 < old(
                self,
            ).columns@.len() {
                final(self).columns@ == cols_selected_at(
                    old(self).columns@,
                    active_col_idx(old(self).columns@) + 1,
                ) && final(self).column_select == true && final(self).focus == old(self).focus
                    && final(self).sort_refs@ == old(self).sort_refs@
            } else {
                *final(self) == *old(self)
            }),
            event == TableEvent::Left && !old(self).column_select ==> *final(self) == (TableView {
                column_select: true,
                ..*old(self)
            }),
            event == TableEvent::Left && old(self).column_select ==> (if old(self).columns@.len()
                > 0 && active_col_idx(old(self).columns@) > 0 {
                final(self).columns@ == cols_selected_at(
                    old(self).columns@,
                    active_col_idx(old(self).columns@) - 1,
                ) && final(self).column_select == true && final(self).focus == old(self).focus
                    && final(self).sort_refs@ == old(self).sort_refs@
            } else {
                *final(self) == *old(self)
            }),
            event == TableEvent::Up ==> (if old(self).column_select {
                Self::cancelled_to(*old(self), *final(self), old(self).focus as int)
            } else if old(self).focus > 0 {
                *final(self) == (TableView { focus: (old(self).focus - 1) as usize, ..*old(self) })
            } else {
                *final(self) == *old(self)
            }),
            event == TableEvent::Down ==> (if old(self).column_select {
                Self::cancelled_to(*old(self), *final(self), old(self).focus as int)
            } else if old(self).focus as int + 1 < old(self).items@.len() {
                *final(self) == (TableView { focus: (old(self).focus + 1) as usize, ..*old(self) })
            } else {
                *final(self) == *old(self)
            }),
            event == TableEvent::PageUp ==> Self::cancelled_to(
                *old(self),
                *final(self),
                if old(self).focus >= 10 {
                    old(self).focus - 10
                } else {
                    0int
                },
            ),
            event == TableEvent::PageDown ==> Self::cancelled_to(
                *old(self),
                *final(self),
                clamped(old(self).focus as int + 10, old(self).items@.len() as int),
            ),
            event == TableEvent::Home ==> Self::cancelled_to(*old(self), *final(self), 0),
            event == TableEvent::End ==> Self::cancelled_to(
                *old(self),
                *final(self),
                if old(self).items@.len() > 0 {
                    old(self).items@.len() - 1
                } else {
                    0int
                },
            ),
            event == TableEvent::Enter && old(self).column_select ==> (if old(
                self,
            ).columns@.len() > 0 {
                Self::committed_to(*old(self), *final(self))
            } else {
                *final(self) == *old(self)
            }),
            event == TableEvent::Enter && !old(self).column_select ==> *final(self) == *old(self),
    {
        let last_focus = self.focus;
        match event {
            TableEvent::Right => {
                if self.column_select {
                    if self.columns.is_empty() {
                        return EventOutcome::Ignored;
                    }
                    if !self.column_next() {
                        return EventOutcome::Ignored;
                    }
                } else {
                    self.column_select = true;
                }
            },
            TableEvent::Left => {
                if self.column_select {
                    if self.columns.is_empty() {
                        return EventOutcome::Ignored;
                    }
                    if !self.column_prev() {
                        return EventOutcome::Ignored;
                    }
                } else {
                    self.column_select = true;
                }
            },
            TableEvent::Up => {
                if self.column_select {
                    self.column_cancel();
                } else if self.focus > 0 {
                    self.focus_up(1);
                } else {
                    return EventOutcome::Ignored;
                }
            },
            TableEvent::Down => {
                let len = self.items.len();
                if self.column_select {
                    self.column_cancel();
                } else if len > 0 && self.focus < len - 1 {
                    self.focus_down(1);
                } else {
                    return EventOutcome::Ignored;
                }
            },
            TableEvent::PageUp => {
                self.column_cancel();
                self.focus_up(10);
            },
            TableEvent::PageDown => {
                self.column_cancel();
                self.focus_down(10);
            },
            TableEvent::Home => {
                self.column_cancel();
                self.focus = 0;
            },
            TableEvent::End => {
                self.column_cancel();
                let len = self.items.len();
                if len > 0 {
                    self.focus = len - 1;
                } else {
                    self.focus = 0;
                }
            },
            TableEvent::Enter => {
                if self.column_select {
                    if self.columns.is_empty() {
                        return EventOutcome::Ignored;
                    }
                    self.commit_column_sort();
                    if has_on_sort {
                        let a = self.active_column();
                        proof {
                            let pre = *old(self);
                            let nxt = active_col_idx(pre.columns@);
                            assert(self.columns@ == cols_sorted_to(
                                pre.columns@,
                                pre.columns@[nxt].column,
                                commit_order(pre.columns@),
                            ));
                            assert(self.columns@[nxt].selected) by {
                                assert(self.columns@[nxt].column == pre.columns@[nxt].column);
                            }
                            let w = active_col_idx(self.columns@);
                            assert(0 <= w < self.columns@.len() && self.columns@[w].selected);
                            if w != nxt {
                                assert(pre.columns@[w].column == pre.columns@[nxt].column);
                                assert(false);
                            }
                            assert(a as int == nxt);
                        }
                        let c = self.columns[a].column;
                        let o = self.columns[a].order;
                        return EventOutcome::Consumed(Some(Notification::Sort(c, o)));
                    }
                } else {
                    if !self.items.is_empty() && has_on_submit {
                        let row = self.focus;
                        let index = self.sort_refs[row];
                        return EventOutcome::Consumed(Some(Notification::Submit(row, index)));
                    }
                }
            },
        }
        if !self.items.is_empty() && last_focus != self.focus {
            let row = self.focus;
            let index = self.sort_refs[row];
            EventOutcome::Consumed(Some(Notification::Select(row, index)))
        } else {
            EventOutcome::Ignored
        }
    }

    /// Recomputes every column's width for a drawing area of the given
    /// size, if it changed since the last layout pass: each column
    /// takes the width the layout assigns it (see
    /// [`col_width`](crate::layout::col_width)).
    pub fn layout(&mut self, width: usize, height: usize)
        requires
            old(self).wf(),
        ensures
            final(self).wf(),
            (width, height) == old(self).last_size ==> *final(self) == *old(self),
            (width, height) != old(self).last_size ==> {
                &&& final(self).last_size == ((width, height))
                &&& final(self).enabled == old(self).enabled
                &&& final(self).column_select == old(self).column_select
                &&& final(self).focus == old(self).focus
                &&& final(self).items@ == old(self).items@
                &&& final(self).sort_refs@ == old(self).sort_refs@
                &&& final(self).columns@.len() == old(self).columns@.len()
                &&& forall|i: int|
                    0 <= i < old(self).columns@.len() ==> (#[trigger] final(self).columns@[i])
                        == (TableColumn {
                        width: final(self).columns@[i].width,
                        ..old(self).columns@[i]
                    }) && final(self).columns@[i].width as int == crate::layout::col_width(
                        policies_of(old(self).columns@),
                        width as int,
                        crate::layout::spec_avail(
                            width as int,
                            old(self).columns@.len() as int,
                            height as int,
                            old(self).items@.len() as int,
                        ),
                        i,
                    )
            },
    {
        if width == self.last_size.0 && height == self.last_size.1 {
            return;
        }
        let count = self.columns.len();
        let mut policies: Vec<Option<TableColumnWidth>> = Vec::new();
        let mut i: usize = 0;
        while i < count
            invariant
                count == self.columns@.len(),
                i <= count,
                policies@.len() == i as int,
                forall|j: int|
                    0 <= j < i as int ==> policies@[j] == self.columns@[j].requested_width,
            decreases count - i,
        {
            policies.push(self.columns[i].requested_width);
            i = i + 1;
        }
        proof {
            assert(policies@ =~= policies_of(self.columns@));
        }
        let avail = crate::layout::available_width(width, count, height, self.items.len());
        let widths = crate::layout::compute_widths(&policies, width, avail);
        let mut k: usize = 0;
        while k < count
            invariant
                count == self.columns@.len(),
                k <= count,
                widths@.len() == count as int,
                policies@ == policies_of(old(self).columns@),
                forall|j: int|
                    0 <= j < count as int ==> (#[trigger] widths@[j]) as int
                        == crate::layout::col_width(
                        policies_of(old(self).columns@),
                        width as int,
                        crate::layout::spec_avail(
                            width as int,
                            old(self).columns@.len() as int,
                            height as int,
                            old(self).items@.len() as int,
                        ),
                        j,
                    ),
                forall|j: int|
                    0 <= j < k as int ==> self.columns@[j] == (TableColumn {
                        width: widths@[j],
                        ..old(self).columns@[j]
                    }),
                forall|j: int|
                    k as int <= j < count as int ==> self.columns@[j] == old(self).columns@[j],
                self.enabled == old(self).enabled,
                self.last_size == old(self).last_size,
                self.column_select == old(self).column_select,
                self.focus == old(self).focus,
                self.items@ == old(self).items@,
                self.sort_refs@ == old(self).sort_refs@,
            decreases count - k,
        {
            let w = widths[k];
            self.columns[k].width = w;
            k = k + 1;
        }
        self.last_size = (width, height);
    }
}

impl<T: TableViewItem<H>, H: ColumnKey> TableView<T, H> {
    /// Returns a mutable reference to the item at the specified index
    /// within the underlying storage, or `None` past the end.
    pub fn item_mut(&mut self, index: usize) -> (r: Option<&mut T>)
        ensures
            (index as int) < old(self).items@.len() ==> r is Some,
            (index as int) >= old(self).items@.len() ==> r is None && *final(self) == *old(self),
    {
        if index < self.items.len() {
            Some(&mut self.items[index])
        } else {
            None
        }
    }
}

impl<T: TableViewItem<H>, H: ColumnKey> TableView<T, H> {
    /// Permutation invariant, spelled out: in a well-formed table the
    /// display references are a bijection onto the storage indices.
    /// Every storage index below the store's length appears at some
    /// display row, and no two display rows share one.  Every operation
    /// of the table keeps `wf`, so this holds after any sequence of
    /// insertions, removals and sorts.
    pub proof fn lemma_refs_bijection(t: Self, v: usize)
        requires
            t.wf(),
            (v as int) < t.items@.len(),
        ensures
            exists|row: int|
                0 <= row < t.sort_refs@.len() && (#[trigger] t.sort_refs@[row]) == v,
            forall|p: int, q: int|
                0 <= p < q < t.sort_refs@.len() ==> (#[trigger] t.sort_refs@[p]) != (
                #[trigger] t.sort_refs@[q]),
    {
        lemma_refs_surjective(t.sort_refs@, t.items@.len() as int, v);
        let w = choose|row: int|
            0 <= row < t.sort_refs@.len() && t.sort_refs@[row] == v;
        assert(t.sort_refs@[w] == v);
    }

    /// Sort stability of selection, spelled out: `sort_by` promises
    /// that the focused display row shows the same storage index after
    /// the sort as before it.  So whatever record was selected, after
    /// sorting by any column in any direction the selected storage
    /// index is unchanged: the selection follows the record, not the
    /// row.
    pub proof fn lemma_selection_stable_under_sort(pre: Self, post: Self, k: usize)
        requires
            pre.items@.len() > 0,
            (pre.focus as int) < pre.sort_refs@.len(),
            pre.sort_refs@[pre.focus as int] == k,
            post.items@.len() == pre.items@.len(),
            (post.focus as int) < post.sort_refs@.len(),
            post.sort_refs@[post.focus as int] == pre.sort_refs@[pre.focus as int],
        ensures
            pre.spec_selected_item() == Some(k),
            post.spec_selected_item() == Some(k),
    {
    }
}

} // verus!
