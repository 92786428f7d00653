//! Cursors over borrowed slices and vectors: they hand out references and
//! copy nothing.

use vstd::prelude::*;
use crate::cursor::{Cursor, Source};

verus! {

/// A cursor over a borrowed slice.
pub struct SliceCursor<'a, T> {
    items: &'a [T],
    pos: usize,
}

impl<'a, T> SliceCursor<'a, T> {
    /// A cursor that stands before the first item of `items`.
    pub fn new(items: &'a [T]) -> (cursor: Self)
        ensures
            cursor.remaining() == items@.as_ref(),
    {
        let cursor = SliceCursor { items, pos: 0 };
        assert(cursor.remaining() =~= items@.as_ref());
        cursor
    }
}

impl<'a, T> Cursor for SliceCursor<'a, T> {
    type Item = &'a T;

    closed spec fn remaining(&self) -> Seq<&'a T> {
        if self.pos <= self.items@.len() {
            self.items@.as_ref().skip(self.pos as int)
        } else {
            Seq::empty()
        }
    }

    fn next(&mut self) -> (item: Option<&'a T>) {
        if self.pos < self.items.len() {
            let item = &self.items[self.pos];
            self.pos = self.pos + 1;
            assert(self.remaining() =~= old(self).remaining().skip(1));
            Some(item)
        } else {
            assert(self.remaining() =~= Seq::empty());
            None
        }
    }
}

impl<'a, T> Source for &'a [T] {
    type Item = &'a T;

    type Cursor = SliceCursor<'a, T>;

    open spec fn items(&self) -> Seq<&'a T> {
        self@.as_ref()
    }

    fn into_cursor(self) -> (cursor: SliceCursor<'a, T>) {
        SliceCursor::new(self)
    }
}

impl<'a, T> Source for &'a Vec<T> {
    type Item = &'a T;

    type Cursor = SliceCursor<'a, T>;

    open spec fn items(&self) -> Seq<&'a T> {
        self@.as_ref()
    }

    fn into_cursor(self) -> (cursor: SliceCursor<'a, T>) {
        SliceCursor::new(self.as_slice())
    }
}

} // verus!
