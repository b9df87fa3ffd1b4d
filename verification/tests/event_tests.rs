use std::cmp::Ordering;

use curtable::ColumnKey;
use curtable::EventOutcome;
use curtable::Notification;
use curtable::TableEvent;
use curtable::TableView;
use curtable::TableViewItem;

#[derive(Copy, Clone, PartialEq, Eq, Hash, Debug)]
enum Col {
    Name,
    Count,
}

impl ColumnKey for Col {
    fn key_eq(&self, other: &Self) -> bool {
        self == other
    }
}

#[derive(Clone, Debug)]
struct Rec {
    name: String,
    count: u32,
}

impl Rec {
    fn new(name: &str, count: u32) -> Rec {
        Rec {
            name: name.to_string(),
            count,
        }
    }
}

impl TableViewItem<Col> for Rec {
    fn cmp_spec(&self, other: &Self, column: Col) -> Ordering {
        self.cmp(other, column)
    }

    fn cmp_spec_antisymmetric(_a: Self, _b: Self, _column: Col) {}

    fn cmp_spec_transitive(_a: Self, _b: Self, _c: Self, _column: Col) {}

    fn to_column(&self, column: Col) -> String {
        match column {
            Col::Name => self.name.clone(),
            Col::Count => format!("{}", self.count),
        }
    }

    fn cmp(&self, other: &Self, column: Col) -> Ordering {
        match column {
            Col::Name => self.name.cmp(&other.name),
            Col::Count => self.count.cmp(&other.count),
        }
    }
}

fn table_with(n: u32) -> TableView<Rec, Col> {
    let mut t = TableView::new()
        .column(Col::Name, "Name".to_string(), |c| c)
        .column(Col::Count, "Count".to_string(), |c| c.ordering(Ordering::Greater));
    let mut items = Vec::new();
    let mut i = 0;
    while i < n {
        items.push(Rec::new(&format!("row{:02}", i), i));
        i += 1;
    }
    t.set_items(items);
    t
}

#[test]
fn page_down_clamps_to_last_row() {
    // 5-item store, focus at row 0, PageDown(10): the focus clamps to
    // row 4 instead of running past the end.
    let mut t = table_with(5);
    assert_eq!(t.selected_row(), Some(0));
    let r = t.on_event(TableEvent::PageDown, false, false);
    assert_eq!(t.selected_row(), Some(4));
    assert_eq!(r, EventOutcome::Consumed(Some(Notification::Select(4, 4))));
}

#[test]
fn page_up_clamps_to_first_row() {
    let mut t = table_with(5);
    t.select_row(3);
    t.on_event(TableEvent::PageUp, false, false);
    assert_eq!(t.selected_row(), Some(0));
}

#[test]
fn empty_store_has_no_selection_and_ignores_enter() {
    // Empty store: no selected row or item, and Enter is unconsumed.
    let mut t: TableView<Rec, Col> = table_with(0);
    assert_eq!(t.selected_row(), None);
    assert_eq!(t.selected_item(), None);
    let r = t.on_event(TableEvent::Enter, true, true);
    assert_eq!(r, EventOutcome::Ignored);
}

#[test]
fn up_and_down_move_focus_and_notify() {
    let mut t = table_with(3);
    let r = t.on_event(TableEvent::Down, false, false);
    assert_eq!(t.selected_row(), Some(1));
    assert_eq!(r, EventOutcome::Consumed(Some(Notification::Select(1, 1))));
    let r = t.on_event(TableEvent::Up, false, false);
    assert_eq!(t.selected_row(), Some(0));
    assert_eq!(r, EventOutcome::Consumed(Some(Notification::Select(0, 0))));
}

#[test]
fn up_at_first_row_bubbles() {
    let mut t = table_with(3);
    let r = t.on_event(TableEvent::Up, false, false);
    assert_eq!(r, EventOutcome::Ignored);
    assert_eq!(t.selected_row(), Some(0));
}

#[test]
fn down_at_last_row_bubbles() {
    let mut t = table_with(2);
    t.select_row(1);
    let r = t.on_event(TableEvent::Down, false, false);
    assert_eq!(r, EventOutcome::Ignored);
}

#[test]
fn home_and_end_jump() {
    let mut t = table_with(4);
    t.on_event(TableEvent::End, false, false);
    assert_eq!(t.selected_row(), Some(3));
    t.on_event(TableEvent::Home, false, false);
    assert_eq!(t.selected_row(), Some(0));
}

#[test]
fn enter_submits_focused_record() {
    let mut t = table_with(3);
    t.sort_by(Col::Name, Ordering::Greater);
    t.select_row(0);
    let r = t.on_event(TableEvent::Enter, false, true);
    // display row 0 shows the record with the greatest name, storage 2
    assert_eq!(r, EventOutcome::Consumed(Some(Notification::Submit(0, 2))));
}

#[test]
fn enter_without_submit_handler_bubbles() {
    let mut t = table_with(3);
    let r = t.on_event(TableEvent::Enter, false, false);
    assert_eq!(r, EventOutcome::Ignored);
}

#[test]
fn commit_sort_toggles_direction_on_same_column() {
    // One column sorted ascending; committing a sort on it again flips
    // to descending, and once more back to ascending.
    let mut t = table_with(3);
    assert_eq!(t.columns[0].order, Ordering::Less);
    t.on_event(TableEvent::Right, false, false);
    let r = t.on_event(TableEvent::Enter, true, false);
    assert_eq!(
        r,
        EventOutcome::Consumed(Some(Notification::Sort(Col::Name, Ordering::Greater)))
    );
    assert_eq!(t.columns[0].order, Ordering::Greater);
    let r = t.on_event(TableEvent::Enter, true, false);
    assert_eq!(
        r,
        EventOutcome::Consumed(Some(Notification::Sort(Col::Name, Ordering::Less)))
    );
}

#[test]
fn commit_sort_on_other_column_uses_its_default() {
    // Committing on a different column applies that column's default
    // direction, and the previously sorted column loses its direction.
    let mut t = table_with(3);
    t.on_event(TableEvent::Right, false, false); // enter column-select
    t.on_event(TableEvent::Right, false, false); // move to Count
    let r = t.on_event(TableEvent::Enter, true, false);
    assert_eq!(
        r,
        EventOutcome::Consumed(Some(Notification::Sort(Col::Count, Ordering::Greater)))
    );
    assert_eq!(t.columns[0].order, Ordering::Equal);
    assert_eq!(t.columns[1].order, Ordering::Greater);
    assert!(t.columns[1].selected);
}

#[test]
fn column_select_pointer_stops_at_edges() {
    let mut t = table_with(2);
    t.on_event(TableEvent::Right, false, false); // enter column-select
    assert!(t.column_select);
    let r = t.on_event(TableEvent::Left, false, false); // at first column
    assert_eq!(r, EventOutcome::Ignored);
    t.on_event(TableEvent::Right, false, false); // to second column
    let r = t.on_event(TableEvent::Right, false, false); // at last column
    assert_eq!(r, EventOutcome::Ignored);
}

#[test]
fn up_cancels_column_select_without_moving_focus() {
    let mut t = table_with(3);
    t.select_row(1);
    t.on_event(TableEvent::Right, false, false);
    assert!(t.column_select);
    t.on_event(TableEvent::Up, false, false);
    assert!(!t.column_select);
    assert_eq!(t.selected_row(), Some(1));
    // selection marks fall back to the sorted column
    assert!(t.columns[0].selected);
}

#[test]
fn sort_notification_reports_committed_direction() {
    let mut t = table_with(4);
    t.on_event(TableEvent::Right, false, false);
    // without a sort handler the commit still happens; the focus row
    // follows its record to the bottom, so a selection change fires
    let r = t.on_event(TableEvent::Enter, false, false);
    assert_eq!(t.columns[0].order, Ordering::Greater);
    assert_eq!(r, EventOutcome::Consumed(Some(Notification::Select(3, 0))));
}
