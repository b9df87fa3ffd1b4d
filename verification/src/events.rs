//! Plain event and outcome values exchanged with the host application.

use vstd::prelude::*;

verus! {

use core::cmp::Ordering;

/// A keyboard input the table's navigation state machine reacts to.
#[derive(Clone, Copy, PartialEq, Eq, Debug)]
pub enum TableEvent {
    Right,
    Left,
    Up,
    Down,
    PageUp,
    PageDown,
    Home,
    End,
    Enter,
}

/// Read-only snapshot handed to the host when a notification fires.
///
/// `Sort` carries the column key and the committed direction; `Submit`
/// and `Select` carry the display row and the storage index of the
/// focused record, in that order.
#[derive(PartialEq, Eq, Debug)]
pub enum Notification<H> {
    Sort(H, Ordering),
    Submit(usize, usize),
    Select(usize, usize),
}

/// Whether an event was consumed, and which notification, if any, the
/// host should dispatch for it.  An `Ignored` event may bubble to an
/// ancestor widget.
#[derive(PartialEq, Eq, Debug)]
pub enum EventOutcome<H> {
    Ignored,
    Consumed(Option<Notification<H>>),
}

} // verus!
