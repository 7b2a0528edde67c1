//! The roles in which a thread can be attached to a table.
use vstd::prelude::*;

pub mod stubs;

verus! {

/// The position of an entry in the stream of everything that was ever put into a table.
#[derive(Clone, Copy, Debug, PartialEq, Eq, Structural)]
pub struct Cursor {
    pub index: usize,
}

impl Cursor {
    /// How many entries were put into the table before this one.
    pub fn index(&self) -> (i: usize)
        ensures
            i == self.index,
    {
        self.index
    }
}

/// Puts entries into a table.
pub trait Producer<T> {
    /// Puts an entry into the table, and blocks until there is room for it.
    fn put(&self, data: T);

    /// Puts an entry into the table if there is room for it, and hands it back otherwise.
    fn try_put(&self, data: T) -> Option<T>;
}

/// Takes entries out of a table.
pub trait Consumer<T> {
    /// Takes the next entry, and blocks until there is one.
    fn take(&self) -> T;

    /// Takes the next entry if there is one.
    fn try_take(&self) -> Option<T>;
}

/// Sees every entry of a table, and holds back the producer until it has.
pub trait StrongObserver<T> {
    /// Observes the next entry, and blocks until there is one.
    fn strong_observe(&self) -> T;

    /// Observes the next entry if there is one.
    fn try_strong_observe(&self) -> Option<T>;
}

/// Looks at the entries that a table happens to hold, and never holds back the producer.
pub trait WeakObserver<T> {
    /// The entry at the given position, unless it is no longer, or not yet, in the table.
    fn weak_observe(&self, index: Cursor) -> Option<T>;

    /// The most recent position.
    fn recent_cursor(&self) -> Cursor;

    /// The oldest position whose entry may still be in the table.
    fn oldest_cursor(&self) -> Cursor;
}

} // verus!
