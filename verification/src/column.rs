//! Column descriptors: per-column metadata and the builder methods used
//! while configuring a table.

use vstd::prelude::*;

verus! {

use core::cmp::Ordering;

/// Horizontal alignment of a column's text.
#[derive(Clone, Copy, PartialEq, Eq, Structural, Debug)]
pub enum HAlign {
    Left,
    Center,
    Right,
}

/// Width policy a column requests from the layout: an exact number of
/// cells, or a percentage of the table's total width.  A column with no
/// requested width shares the remaining space evenly.
#[derive(Clone, Copy, PartialEq, Eq, Structural, Debug)]
pub enum TableColumnWidth {
    Absolute(usize),
    Percent(usize),
}

/// A type used for the construction of columns in a
/// [`TableView`](crate::TableView).
///
/// `order` is this column's current sort direction (`Equal` meaning
/// none); at most one column of a table carries a direction at a time.
/// `selected` marks the active column while column-select mode is on.
pub struct TableColumn<H> {
    pub column: H,
    pub title: String,
    pub selected: bool,
    pub alignment: HAlign,
    pub order: Ordering,
    pub width: usize,
    pub default_order: Ordering,
    pub requested_width: Option<TableColumnWidth>,
}

impl<H> TableColumn<H> {
    /// Sets the default ordering of the column.
    pub fn ordering(self, order: Ordering) -> (r: Self)
        ensures
            r == (TableColumn { default_order: order, ..self }),
    {
        TableColumn { default_order: order, ..self }
    }

    /// Sets the horizontal text alignment of the column.
    pub fn align(self, alignment: HAlign) -> (r: Self)
        ensures
            r == (TableColumn { alignment, ..self }),
    {
        TableColumn { alignment, ..self }
    }

    /// Sets how many characters of width this column will try to occupy.
    pub fn width(self, width: usize) -> (r: Self)
        ensures
            r == (TableColumn { requested_width: Some(TableColumnWidth::Absolute(width)), ..self }),
    {
        TableColumn { requested_width: Some(TableColumnWidth::Absolute(width)), ..self }
    }

    /// Sets what percentage of the width of the entire table this column
    /// will try to occupy.
    pub fn width_percent(self, width: usize) -> (r: Self)
        ensures
            r == (TableColumn { requested_width: Some(TableColumnWidth::Percent(width)), ..self }),
    {
        TableColumn { requested_width: Some(TableColumnWidth::Percent(width)), ..self }
    }

    /// A fresh descriptor: left aligned, no requested width, no sort
    /// direction, ascending by default.
    pub(crate) fn new(column: H, title: String) -> (r: Self)
        ensures
            r.column == column,
            r.title == title,
            r.selected == false,
            r.alignment == HAlign::Left,
            r.order == Ordering::Equal,
            r.width == 0,
            r.default_order == Ordering::Less,
            r.requested_width is None,
    {
        TableColumn {
            column,
            title,
            selected: false,
            alignment: HAlign::Left,
            order: Ordering::Equal,
            width: 0,
            default_order: Ordering::Less,
            requested_width: None,
        }
    }
}

} // verus!
