//! The flattening adapter: a cursor over the items of a sequence of
//! sequences, outer order first, inner order second.
//!
//! The adapter holds the cursor of the outer sequence and the cursor of at
//! most one inner sequence. It builds no flat collection, and it asks the
//! outer cursor for an inner sequence only when a pull needs one.

use vstd::prelude::*;
use crate::cursor::{Cursor, Source};
use crate::laws::lemma_pull_takes_head;
use crate::state::{lemma_refill_unfold, State};

verus! {

/// Where the adapter stands with respect to its inner sequences.
enum Slot<C> {
    /// No inner sequence was asked for yet.
    Fresh,
    /// The cursor of the inner sequence that is being drained.
    Draining(C),
    /// The outer sequence has ended.
    Exhausted,
}

/// A lazy cursor over the items of the inner sequences of an outer sequence.
///
/// `I` is the outer sequence: a source whose items are sources themselves.
/// The adapter hands out what the inner cursors hand out, by value or by
/// reference as they do, and copies nothing.
pub struct Flatten<I: Source> where I::Item: Source {
    outer: I::Cursor,
    inner: Slot<<I::Item as Source>::Cursor>,
}

/// The item sequences of the sources in `sources`.
pub open spec fn item_seqs<S: Source>(sources: Seq<S>) -> Seq<Seq<S::Item>> {
    sources.map_values(|s: S| s.items())
}

impl<I: Source> View for Flatten<I> where I::Item: Source {
    type V = State<<I::Item as Source>::Item>;

    /// The adapter's state: what its inner cursor has still to hand out, and
    /// the item sequences of the sources that its outer cursor has still to
    /// hand out.
    closed spec fn view(&self) -> State<<I::Item as Source>::Item> {
        match self.inner {
            Slot::Fresh => State::Fresh { outer: item_seqs(self.outer.remaining()) },
            Slot::Draining(inner) => State::Draining {
                inner: inner.remaining(),
                outer: item_seqs(self.outer.remaining()),
            },
            Slot::Exhausted => State::Exhausted,
        }
    }
}

impl<I: Source> Flatten<I> where I::Item: Source {
    /// Wraps `source`. Nothing is pulled: the adapter is fresh, and every
    /// inner sequence of `source` is still pending.
    pub fn new(source: I) -> (adapter: Self)
        ensures
            adapter@ == State::start(item_seqs(source.items())),
            adapter.remaining() == item_seqs(source.items()).flatten(),
    {
        Flatten { outer: source.into_cursor(), inner: Slot::Fresh }
    }
}

/// Wraps `source`, a sequence of sequences, into a cursor over the items of
/// its inner sequences. Nothing is pulled from `source` until the adapter is
/// pulled.
pub fn flatten<I: Source>(source: I) -> (adapter: Flatten<I>) where I::Item: Source
    ensures
        adapter@ == State::start(item_seqs(source.items())),
        adapter.remaining() == item_seqs(source.items()).flatten(),
{
    Flatten::new(source)
}

impl<I: Source> Cursor for Flatten<I> where I::Item: Source {
    type Item = <I::Item as Source>::Item;

    /// The items of the inner sequence being drained, then those of the
    /// pending inner sequences, one inner sequence after the other.
    open spec fn remaining(&self) -> Seq<Self::Item> {
        self@.flat()
    }

    /// Hands out the next item of the inner sequence that is being drained.
    /// When that one is spent, or none was asked for yet, the adapter asks
    /// the outer cursor for inner sequences until one of them has an item.
    /// When the outer cursor ends, the adapter is exhausted: from then on a
    /// pull hands out nothing, touches no cursor and changes nothing.
    fn next(&mut self) -> (item: Option<Self::Item>)
        ensures
            item == old(self)@.pulled(),
            final(self)@ == old(self)@.after_pull(),
            item is None <==> final(self)@ is Exhausted,
            old(self)@ is Exhausted ==> *final(self) == *old(self),
    {
        loop
            invariant
                self@.settle() == old(self)@.settle(),
                old(self)@ is Exhausted ==> *self == *old(self),
            decreases self.outer.remaining().len(),
        {
            proof {
                lemma_pull_takes_head(old(self)@);
            }
            match &mut self.inner {
                Slot::Exhausted => {
                    return None;
                },
                Slot::Draining(inner) => {
                    if let Some(item) = inner.next() {
                        return Some(item);
                    }
                },
                Slot::Fresh => {},
            }
            let ghost sources = self.outer.remaining();
            match self.outer.next() {
                None => {
                    self.inner = Slot::Exhausted;
                    return None;
                },
                Some(source) => {
                    proof {
                        lemma_refill_unfold(item_seqs(sources));
                        assert(item_seqs(sources.skip(1)) =~= item_seqs(sources).skip(1));
                    }
                    self.inner = Slot::Draining(source.into_cursor());
                },
            }
        }
    }
}

} // verus!
