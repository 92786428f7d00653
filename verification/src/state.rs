//! The adapter as mathematics: its state, what one pull does to it, and what
//! it hands out.

use vstd::prelude::*;

verus! {

/// The state of a flattening adapter over items of type `T`.
///
/// The inner sequences that the adapter has not yet asked its outer cursor
/// for are held as `outer`; the items of the inner sequence it is draining,
/// as `inner`.
pub enum State<T> {
    /// Nothing has been pulled yet: no inner sequence was asked for.
    Fresh { outer: Seq<Seq<T>> },
    /// An inner sequence was obtained and is being drained.
    Draining { inner: Seq<T>, outer: Seq<Seq<T>> },
    /// The outer sequence was seen to end. This state is final.
    Exhausted,
}

/// The number of empty sequences that `outer` begins with.
pub open spec fn leading_empty<T>(outer: Seq<Seq<T>>) -> nat
    decreases outer.len(),
{
    if outer.len() == 0 || outer[0].len() > 0 {
        0
    } else {
        1 + leading_empty(outer.skip(1))
    }
}

/// The state reached by asking `outer` for inner sequences until one of them
/// has an item, or until `outer` ends.
pub open spec fn refill<T>(outer: Seq<Seq<T>>) -> State<T> {
    let k: int = leading_empty(outer) as int;
    if k < outer.len() {
        State::Draining { inner: outer[k], outer: outer.skip(k + 1) }
    } else {
        State::Exhausted
    }
}

impl<T> State<T> {
    /// The state of an adapter that was just wrapped around `outer`.
    pub open spec fn start(outer: Seq<Seq<T>>) -> State<T> {
        State::Fresh { outer }
    }

    /// Everything the adapter will still hand out, in order.
    pub open spec fn flat(self) -> Seq<T> {
        match self {
            State::Fresh { outer } => outer.flatten(),
            State::Draining { inner, outer } => inner + outer.flatten(),
            State::Exhausted => Seq::empty(),
        }
    }

    /// The state in which the next pull finds its answer: the inner sequences
    /// that have nothing left to give are passed over.
    pub open spec fn settle(self) -> State<T> {
        match self {
            State::Fresh { outer } => refill(outer),
            State::Draining { inner, outer } => if inner.len() > 0 {
                self
            } else {
                refill(outer)
            },
            State::Exhausted => State::Exhausted,
        }
    }

    /// What the next pull hands out.
    pub open spec fn pulled(self) -> Option<T> {
        match self.settle() {
            State::Draining { inner, .. } => Some(inner[0]),
            _ => None,
        }
    }

    /// The state after the next pull.
    pub open spec fn after_pull(self) -> State<T> {
        match self.settle() {
            State::Draining { inner, outer } => State::Draining { inner: inner.skip(1), outer },
            _ => State::Exhausted,
        }
    }

    /// The state after `n` pulls.
    pub open spec fn after_pulls(self, n: nat) -> State<T>
        decreases n,
    {
        if n == 0 {
            self
        } else {
            self.after_pull().after_pulls((n - 1) as nat)
        }
    }

    /// The inner sequences that the adapter has not asked its outer cursor
    /// for. Once exhausted, the adapter asks for none.
    pub open spec fn pending(self) -> Seq<Seq<T>> {
        match self {
            State::Fresh { outer } => outer,
            State::Draining { outer, .. } => outer,
            State::Exhausted => Seq::empty(),
        }
    }
}

/// `leading_empty` counts exactly the empty sequences before the first one
/// that has an item.
pub proof fn lemma_leading_empty<T>(outer: Seq<Seq<T>>)
    ensures
        leading_empty(outer) <= outer.len(),
        forall|i: int| 0 <= i < leading_empty(outer) ==> (#[trigger] outer[i]).len() == 0,
        leading_empty(outer) < outer.len() ==> outer[leading_empty(outer) as int].len() > 0,
    decreases outer.len(),
{
    if outer.len() > 0 && outer[0].len() == 0 {
        let rest = outer.skip(1);
        lemma_leading_empty(rest);
        assert forall|i: int| 0 <= i < leading_empty(outer) implies (#[trigger] outer[i]).len()
            == 0 by {
            if i > 0 {
                assert(outer[i] == rest[i - 1]);
            }
        }
    }
}

/// Asking a non-empty `outer` for its first inner sequence, and going on from
/// there, leads to the same state as `refill(outer)`.
pub proof fn lemma_refill_unfold<T>(outer: Seq<Seq<T>>)
    requires
        outer.len() > 0,
    ensures
        refill(outer) == (State::Draining { inner: outer[0], outer: outer.skip(1) }).settle(),
{
    if outer[0].len() == 0 {
        let rest = outer.skip(1);
        let k: int = leading_empty(rest) as int;
        lemma_leading_empty(rest);
        if k < rest.len() {
            assert(outer.skip(k + 2) =~= rest.skip(k + 1));
        }
    }
}

/// Passing over empty inner sequences does not change what is handed out, and
/// the inner sequence that `refill` arrives at has an item.
pub proof fn lemma_refill_flat<T>(outer: Seq<Seq<T>>)
    ensures
        refill(outer).flat() == outer.flatten(),
        (refill(outer) matches State::Draining { inner, .. } ==> inner.len() > 0),
    decreases outer.len(),
{
    lemma_leading_empty(outer);
    if outer.len() > 0 {
        assert(outer.drop_first() == outer.skip(1));
        if outer[0].len() == 0 {
            lemma_refill_unfold(outer);
            lemma_refill_flat(outer.skip(1));
            assert(outer.flatten() =~= outer.skip(1).flatten());
        }
    }
}

} // verus!
