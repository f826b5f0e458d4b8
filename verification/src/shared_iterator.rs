//! A forward-only cursor over a decoded item stream. One position is shared
//! by every borrow of the cursor: the primary scan and a transient context
//! pull advance the same position, so an item handed out once is consumed
//! for good and is never delivered twice.

use vstd::prelude::*;

verus! {

/// A single shared position over a fixed sequence of items.
pub struct SharedIterator<T> {
    items: Vec<T>,
    pos: usize,
}

impl<T> SharedIterator<T> {
    /// The items the cursor ranges over.
    pub closed spec fn items(&self) -> Seq<T> {
        self.items@
    }

    /// The shared position: how many items have been consumed so far.
    pub closed spec fn pos(&self) -> int {
        self.pos as int
    }

    /// The cursor starts at the first item.
    pub fn new(items: Vec<T>) -> (r: SharedIterator<T>)
        ensures
            r.items() == items@,
            r.pos() == 0,
    {
        SharedIterator { items, pos: 0 }
    }

    /// Hands out the item at the shared position and advances that position;
    /// `None` once every item has been consumed.
    pub fn next(&mut self) -> (r: Option<&T>)
        ensures
            old(self).pos() < old(self).items().len() ==> {
                &&& r matches Some(item) && *item == old(self).items()[old(self).pos()]
                &&& final(self).pos() == old(self).pos() + 1
            },
            old(self).pos() >= old(self).items().len() ==> {
                &&& r is None
                &&& final(self).pos() == old(self).pos()
            },
            final(self).items() == old(self).items(),
            final(self).pos() >= old(self).pos(),
    {
        if self.pos < self.items.len() {
            let item = &self.items[self.pos];
            self.pos = self.pos + 1;
            Some(item)
        } else {
            None
        }
    }

    /// The current value of the shared position.
    pub fn position(&self) -> (r: usize)
        ensures
            r == self.pos(),
    {
        self.pos
    }

    /// How many items are still ahead of the shared position.
    pub fn remaining(&self) -> (r: usize)
        ensures
            self.pos() <= self.items().len() ==> r == self.items().len() - self.pos(),
            self.pos() > self.items().len() ==> r == 0,
    {
        if self.pos < self.items.len() {
            self.items.len() - self.pos
        } else {
            0
        }
    }
}

} // verus!
