//! Core of a sortable, multi-column table for text user interfaces.
//!
//! The crate keeps a store of records together with a permutation of
//! storage indices (`sort_refs`) that realises the displayed order, a
//! registry of column descriptors, a pure width-allocation layout, and
//! the focus/navigation state machine that drives the sort protocol.
//! Rendering and the host event loop are left to the surrounding
//! application; the table only says what to draw and which
//! notifications to raise.

use vstd::prelude::*;

pub mod column;
pub mod events;
pub mod layout;
pub mod sorting;
pub mod table;

pub use column::HAlign;
pub use column::TableColumn;
pub use column::TableColumnWidth;
pub use events::EventOutcome;
pub use events::Notification;
pub use events::TableEvent;
pub use table::TableView;

verus! {

use core::cmp::Ordering;

/// Identity of a column: an opaque, copyable value chosen by the caller
/// (typically an enumeration), compared for equality only.
pub trait ColumnKey: Copy + Sized {
    /// Executable equality test on keys, agreeing with mathematical
    /// equality of the key values.
    fn key_eq(&self, other: &Self) -> (r: bool)
        ensures
            r == (*self == *other),
    ;
}

/// A trait for displaying and sorting items inside a
/// [`TableView`](crate::TableView).
pub trait TableViewItem<H: ColumnKey>: Clone + Sized {
    /// Mathematical meaning of the per-column comparison; [`Self::cmp`]
    /// must return exactly this.
    spec fn cmp_spec(&self, other: &Self, column: H) -> Ordering;

    /// String representation of the item for the specified column.
    fn to_column(&self, column: H) -> String;

    /// Three-way comparison of two items via their specified column.
    fn cmp(&self, other: &Self, column: H) -> (r: Ordering)
        ensures
            r == self.cmp_spec(other, column),
    ;

    /// The comparison reverses when its arguments swap sides.
    proof fn cmp_spec_antisymmetric(a: Self, b: Self, column: H)
        ensures
            a.cmp_spec(&b, column) == Ordering::Less <==> b.cmp_spec(&a, column)
                == Ordering::Greater,
            a.cmp_spec(&b, column) == Ordering::Equal <==> b.cmp_spec(&a, column)
                == Ordering::Equal,
    ;

    /// `a` at most `b` and `b` at most `c` imply `a` at most `c`.
    proof fn cmp_spec_transitive(a: Self, b: Self, c: Self, column: H)
        requires
            a.cmp_spec(&b, column) != Ordering::Greater,
            b.cmp_spec(&c, column) != Ordering::Greater,
        ensures
            a.cmp_spec(&c, column) != Ordering::Greater,
    ;
}

} // verus!
