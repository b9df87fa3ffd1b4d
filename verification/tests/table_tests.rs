use std::cmp::Ordering;

use curtable::ColumnKey;
use curtable::HAlign;
use curtable::TableView;
use curtable::TableViewItem;

#[derive(Copy, Clone, PartialEq, Eq, Hash, Debug)]
enum BasicColumn {
    Name,
    Count,
}

impl ColumnKey for BasicColumn {
    fn key_eq(&self, other: &Self) -> bool {
        self == other
    }
}

#[derive(Clone, Debug, PartialEq)]
struct Foo {
    name: String,
    count: u32,
}

impl Foo {
    fn new(name: &str, count: u32) -> Foo {
        Foo {
            name: name.to_string(),
            count,
        }
    }
}

impl TableViewItem<BasicColumn> for Foo {
    fn cmp_spec(&self, other: &Self, column: BasicColumn) -> Ordering {
        self.cmp(other, column)
    }

    fn cmp_spec_antisymmetric(_a: Self, _b: Self, _column: BasicColumn) {}

    fn cmp_spec_transitive(_a: Self, _b: Self, _c: Self, _column: BasicColumn) {}

    fn to_column(&self, column: BasicColumn) -> String {
        match column {
            BasicColumn::Name => self.name.clone(),
            BasicColumn::Count => format!("{}", self.count),
        }
    }

    fn cmp(&self, other: &Self, column: BasicColumn) -> Ordering {
        match column {
            BasicColumn::Name => self.name.cmp(&other.name),
            BasicColumn::Count => self.count.cmp(&other.count),
        }
    }
}

fn two_column_table() -> TableView<Foo, BasicColumn> {
    TableView::new()
        .column(BasicColumn::Name, "Name".to_string(), |c| c)
        .column(BasicColumn::Count, "Count".to_string(), |c| {
            c.align(HAlign::Right)
        })
}

#[test]
fn new_table_is_empty() {
    let t: TableView<Foo, BasicColumn> = TableView::new();
    assert!(t.is_empty());
    assert_eq!(t.len(), 0);
    assert!(t.is_enabled());
}

#[test]
fn first_column_becomes_default_sort_column() {
    let t = two_column_table();
    assert_eq!(t.columns.len(), 2);
    assert!(t.columns[0].selected);
    assert_eq!(t.columns[0].order, Ordering::Less);
    assert!(!t.columns[1].selected);
    assert_eq!(t.columns[1].order, Ordering::Equal);
}

#[test]
fn duplicate_column_key_is_ignored() {
    let t = two_column_table().column(BasicColumn::Name, "Again".to_string(), |c| c);
    assert_eq!(t.columns.len(), 2);
    assert_eq!(t.columns[0].title, "Name");
}

#[test]
fn set_items_keeps_storage_order_and_applies_sort() {
    // Scenario: store [{b,2},{a,1}], ascending sort by name: display
    // order is [a, b] while storage order stays [b, a].
    let mut t = two_column_table();
    t.set_items(vec![Foo::new("b", 2), Foo::new("a", 1)]);
    assert_eq!(t.item(0).unwrap().name, "b");
    assert_eq!(t.item(1).unwrap().name, "a");
    assert_eq!(t.sort_refs, vec![1, 0]);
}

#[test]
fn selection_follows_record_across_sort() {
    // Selecting storage index 0 ("b"), then sorting, still resolves to
    // the same record.
    let mut t = two_column_table();
    t.set_items(vec![Foo::new("b", 2), Foo::new("a", 1)]);
    t.select_item(0);
    assert_eq!(t.selected_item(), Some(0));
    assert_eq!(t.selected_row(), Some(1));
    t.sort_by(BasicColumn::Count, Ordering::Less);
    assert_eq!(t.selected_item(), Some(0));
    t.sort_by(BasicColumn::Name, Ordering::Greater);
    assert_eq!(t.selected_item(), Some(0));
}

#[test]
fn sort_descending_inverts_order() {
    let mut t = two_column_table();
    t.set_items(vec![Foo::new("b", 2), Foo::new("a", 1), Foo::new("c", 3)]);
    t.sort_by(BasicColumn::Name, Ordering::Greater);
    assert_eq!(t.sort_refs, vec![2, 0, 1]);
    t.sort_by(BasicColumn::Count, Ordering::Less);
    assert_eq!(t.sort_refs, vec![1, 0, 2]);
}

#[test]
fn unknown_sort_key_is_a_no_op() {
    let mut t: TableView<Foo, BasicColumn> =
        TableView::new().column(BasicColumn::Name, "Name".to_string(), |c| c);
    t.set_items(vec![Foo::new("b", 2), Foo::new("a", 1)]);
    let before = t.sort_refs.clone();
    t.sort_by(BasicColumn::Count, Ordering::Less);
    assert_eq!(t.sort_refs, before);
}

#[test]
fn insert_without_sort_appends_reference() {
    // Inserting item X into a store of length n with no active sort
    // places X's storage index at n and at display row n.
    let mut t: TableView<Foo, BasicColumn> = TableView::new();
    t.insert_item(Foo::new("b", 2));
    t.insert_item(Foo::new("a", 1));
    t.insert_item(Foo::new("c", 3));
    assert_eq!(t.sort_refs, vec![0, 1, 2]);
    assert_eq!(t.len(), 3);
}

#[test]
fn insert_minimum_with_ascending_sort_lands_on_top_row() {
    let mut t = two_column_table();
    t.set_items(vec![Foo::new("b", 2), Foo::new("c", 3)]);
    t.insert_item(Foo::new("a", 1));
    // storage index of "a" is 2; ascending name sort shows it first
    assert_eq!(t.sort_refs[0], 2);
    assert_eq!(t.item(2).unwrap().name, "a");
}

#[test]
fn remove_reindexes_references() {
    // Removing storage index i decrements every reference greater than
    // i by exactly one, and the length shrinks by one.
    let mut t: TableView<Foo, BasicColumn> = TableView::new();
    t.set_items(vec![
        Foo::new("a", 1),
        Foo::new("b", 2),
        Foo::new("c", 3),
        Foo::new("d", 4),
    ]);
    let removed = t.remove_item(1);
    assert_eq!(removed, Some(Foo::new("b", 2)));
    assert_eq!(t.len(), 3);
    assert_eq!(t.sort_refs, vec![0, 1, 2]);
    assert_eq!(t.item(1).unwrap().name, "c");
}

#[test]
fn remove_out_of_bounds_returns_none() {
    let mut t: TableView<Foo, BasicColumn> = TableView::new();
    t.set_items(vec![Foo::new("a", 1)]);
    assert_eq!(t.remove_item(5), None);
    assert_eq!(t.len(), 1);
}

#[test]
fn remove_focused_record_moves_focus_up() {
    let mut t: TableView<Foo, BasicColumn> = TableView::new();
    t.set_items(vec![Foo::new("a", 1), Foo::new("b", 2), Foo::new("c", 3)]);
    t.select_row(2);
    t.remove_item(2);
    assert_eq!(t.selected_row(), Some(1));
}

#[test]
fn take_items_empties_the_table() {
    let mut t = two_column_table();
    t.set_items(vec![Foo::new("b", 2), Foo::new("a", 1)]);
    t.select_row(1);
    let out = t.take_items();
    assert_eq!(out.len(), 2);
    assert_eq!(out[0].name, "b");
    assert!(t.is_empty());
    assert_eq!(t.sort_refs.len(), 0);
    assert_eq!(t.selected_row(), None);
}

#[test]
fn clear_resets_focus() {
    let mut t: TableView<Foo, BasicColumn> = TableView::new();
    t.set_items(vec![Foo::new("a", 1), Foo::new("b", 2)]);
    t.select_row(1);
    t.clear();
    assert!(t.is_empty());
    assert_eq!(t.selected_row(), None);
    assert_eq!(t.selected_item(), None);
}

#[test]
fn select_item_out_of_bounds_is_a_no_op() {
    let mut t: TableView<Foo, BasicColumn> = TableView::new();
    t.set_items(vec![Foo::new("a", 1)]);
    t.select_item(7);
    assert_eq!(t.selected_row(), Some(0));
}

#[test]
fn item_mut_allows_in_place_update() {
    let mut t: TableView<Foo, BasicColumn> = TableView::new();
    t.set_items(vec![Foo::new("a", 1)]);
    if let Some(item) = t.item_mut(0) {
        item.count = 9;
    }
    assert_eq!(t.item(0).unwrap().count, 9);
    assert!(t.item_mut(3).is_none());
}

#[test]
fn enable_disable_toggle() {
    let mut t: TableView<Foo, BasicColumn> = TableView::new();
    t.set_items(vec![Foo::new("a", 1)]);
    assert!(t.take_focus());
    t.disable();
    assert!(!t.is_enabled());
    assert!(!t.take_focus());
    t.set_enabled(true);
    assert!(t.take_focus());
    t.enable();
    assert!(t.is_enabled());
}
