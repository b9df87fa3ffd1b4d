use std::cmp::Ordering;

use curtable::ColumnKey;
use curtable::TableView;
use curtable::TableViewItem;

#[derive(Copy, Clone, PartialEq, Eq, Hash, Debug)]
enum Col {
    A,
    B,
    C,
}

impl ColumnKey for Col {
    fn key_eq(&self, other: &Self) -> bool {
        self == other
    }
}

#[derive(Clone, Debug)]
struct Row(u32);

impl TableViewItem<Col> for Row {
    fn cmp_spec(&self, other: &Self, column: Col) -> Ordering {
        self.cmp(other, column)
    }

    fn cmp_spec_antisymmetric(_a: Self, _b: Self, _column: Col) {}

    fn cmp_spec_transitive(_a: Self, _b: Self, _c: Self, _column: Col) {}

    fn to_column(&self, _column: Col) -> String {
        format!("{}", self.0)
    }

    fn cmp(&self, other: &Self, _column: Col) -> Ordering {
        self.0.cmp(&other.0)
    }
}

fn rows(n: u32) -> Vec<Row> {
    let mut v = Vec::new();
    for i in 0..n {
        v.push(Row(i));
    }
    v
}

#[test]
fn absolute_and_unsized_share_the_width() {
    let mut t: TableView<Row, Col> = TableView::new()
        .column(Col::A, "A".to_string(), |c| c)
        .column(Col::B, "B".to_string(), |c| c.width(10));
    t.set_items(rows(3));
    t.layout(80, 20);
    // one separator: 80 - 3 = 77 available; B takes 10, A the rest
    assert_eq!(t.columns[0].width, 67);
    assert_eq!(t.columns[1].width, 10);
}

#[test]
fn percent_width_rounds_up_and_rest_is_shared() {
    let mut t: TableView<Row, Col> = TableView::new()
        .column(Col::A, "A".to_string(), |c| c.width_percent(50))
        .column(Col::B, "B".to_string(), |c| c);
    t.set_items(rows(2));
    t.layout(50, 10);
    // 50 - 3 = 47 available; A = ceil(50 * 50 / 100) = 25; B = 22
    assert_eq!(t.columns[0].width, 25);
    assert_eq!(t.columns[1].width, 22);
}

#[test]
fn scrollbar_reserves_two_more_cells() {
    let mut t: TableView<Row, Col> = TableView::new()
        .column(Col::A, "A".to_string(), |c| c.width_percent(50))
        .column(Col::B, "B".to_string(), |c| c);
    t.set_items(rows(30));
    t.layout(50, 10);
    // 30 rows exceed the 9 visible ones: 45 cells remain; A = 25, B = 20
    assert_eq!(t.columns[0].width, 25);
    assert_eq!(t.columns[1].width, 20);
}

#[test]
fn remainder_is_split_evenly_among_unsized_columns() {
    let mut t: TableView<Row, Col> = TableView::new()
        .column(Col::A, "A".to_string(), |c| c)
        .column(Col::B, "B".to_string(), |c| c)
        .column(Col::C, "C".to_string(), |c| c);
    t.set_items(rows(2));
    t.layout(32, 10);
    // two separators: 32 - 6 = 26 available, 8 cells each
    assert_eq!(t.columns[0].width, 8);
    assert_eq!(t.columns[1].width, 8);
    assert_eq!(t.columns[2].width, 8);
    let total: usize = t.columns.iter().map(|c| c.width).sum();
    assert!(total + 6 <= 32);
}

#[test]
fn widths_never_exceed_the_supplied_width() {
    let mut t: TableView<Row, Col> = TableView::new()
        .column(Col::A, "A".to_string(), |c| c.width_percent(80))
        .column(Col::B, "B".to_string(), |c| c.width_percent(80))
        .column(Col::C, "C".to_string(), |c| c);
    t.set_items(rows(4));
    t.layout(40, 12);
    let total: usize = t.columns.iter().map(|c| c.width).sum();
    assert!(total + 6 <= 40);
}

#[test]
fn zero_columns_layout_is_harmless() {
    let mut t: TableView<Row, Col> = TableView::new();
    t.set_items(rows(2));
    t.layout(20, 5);
    assert_eq!(t.columns.len(), 0);
}
