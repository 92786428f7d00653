//! A cursor that owns its items and hands them out by value.

use std::collections::VecDeque;
use vstd::prelude::*;
use crate::cursor::{tail, Cursor, Source};

verus! {

/// A cursor over an owned double-ended queue: each pull moves the front item
/// out of the queue.
pub struct DequeCursor<T> {
    items: VecDeque<T>,
}

impl<T> Cursor for DequeCursor<T> {
    type Item = T;

    closed spec fn remaining(&self) -> Seq<T> {
        self.items@
    }

    fn next(&mut self) -> (item: Option<T>) {
        let item = self.items.pop_front();
        assert(self.items@ =~= tail(old(self).items@));
        item
    }
}

impl<T> Source for VecDeque<T> {
    type Item = T;

    type Cursor = DequeCursor<T>;

    open spec fn items(&self) -> Seq<T> {
        self@
    }

    fn into_cursor(self) -> (cursor: DequeCursor<T>) {
        DequeCursor { items: self }
    }
}

} // verus!
