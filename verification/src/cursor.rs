//! Pull-based sequences: a [`Cursor`] hands out the items of a finite
//! sequence one by one, and a [`Source`] is anything that can be turned into
//! a cursor. The adapter is written against these two, so it works alike for
//! items handed out by value and by reference.

use vstd::prelude::*;

verus! {

/// A stateful position in a finite sequence: it hands out the next item on
/// demand, or signals that nothing is left.
pub trait Cursor {
    /// What the cursor hands out.
    type Item;

    /// The items still to come, in the order in which they will be handed out.
    ///
    /// Every implementation says here what it has left. Where one does not,
    /// nothing is known of the sequence, and `next` cannot be proved for it.
    open spec fn remaining(&self) -> Seq<Self::Item> {
        arbitrary()
    }

    /// Hands out the next item, or `None` when nothing is left. An exhausted
    /// cursor stays exhausted.
    fn next(&mut self) -> (item: Option<Self::Item>)
        ensures
            item == head(old(self).remaining()),
            final(self).remaining() == tail(old(self).remaining()),
    ;

    /// Pulls until nothing is left and returns what was handed out, in order.
    fn collect(self) -> (items: Vec<Self::Item>) where Self: Sized
        ensures
            items@ == self.remaining(),
    {
        let mut cursor = self;
        let mut items: Vec<Self::Item> = Vec::new();
        loop
            invariant
                items@ + cursor.remaining() == self.remaining(),
            decreases cursor.remaining().len(),
        {
            let ghost before = cursor.remaining();
            match cursor.next() {
                Some(item) => {
                    items.push(item);
                    assert(items@ + cursor.remaining() =~= (items@.drop_last() + before));
                },
                None => {
                    assert(items@ =~= items@ + cursor.remaining());
                    return items;
                },
            }
        }
    }
}

/// A value that can be turned into a cursor over its items.
pub trait Source {
    /// What the cursor hands out.
    type Item;

    /// The cursor this source turns into.
    type Cursor: Cursor<Item = Self::Item>;

    /// The items of this source, in order. As with `Cursor::remaining`,
    /// every implementation says here what it holds.
    open spec fn items(&self) -> Seq<Self::Item> {
        arbitrary()
    }

    /// Turns the source into a cursor that stands before its first item.
    fn into_cursor(self) -> (cursor: Self::Cursor)
        ensures
            cursor.remaining() == self.items(),
    ;
}

/// Every cursor is a source: it turns into itself, and its items are those it
/// has still to hand out.
impl<C: Cursor> Source for C {
    type Item = C::Item;

    type Cursor = C;

    open spec fn items(&self) -> Seq<C::Item> {
        self.remaining()
    }

    fn into_cursor(self) -> (cursor: C) {
        self
    }
}

/// The first item of `s`, if it has one.
pub open spec fn head<T>(s: Seq<T>) -> Option<T> {
    if s.len() == 0 {
        None
    } else {
        Some(s[0])
    }
}

/// What is left of `s` after its first item was taken; an empty sequence stays empty.
pub open spec fn tail<T>(s: Seq<T>) -> Seq<T> {
    if s.len() == 0 {
        s
    } else {
        s.skip(1)
    }
}

} // verus!
