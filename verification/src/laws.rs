//! What holds of every adapter, proved over its states.

use vstd::prelude::*;
use vstd::seq_lib::lemma_flatten_concat;
use crate::cursor::{head, tail};
use crate::state::{lemma_leading_empty, lemma_refill_flat, State};

verus! {

/// `outer` without its empty sequences, the others in their order.
pub open spec fn without_empty<T>(outer: Seq<Seq<T>>) -> Seq<Seq<T>> {
    outer.filter(|inner: Seq<T>| inner.len() > 0)
}

/// The `n`-th item of the flat sequence, if there is one.
pub open spec fn nth<T>(flat: Seq<T>, n: nat) -> Option<T> {
    if n < flat.len() {
        Some(flat[n as int])
    } else {
        None
    }
}

/// A pull hands out the first of the items still to come and leaves the
/// rest; when none is to come, it hands out nothing.
pub proof fn lemma_pull_takes_head<T>(state: State<T>)
    ensures
        state.pulled() == head(state.flat()),
        state.after_pull().flat() == tail(state.flat()),
{
    lemma_refill_flat(state.pending());
    if state.settle() is Draining {
        assert(state.after_pull().flat() =~= state.flat().skip(1));
    }
}

/// After `n` pulls the adapter hands out the `n`-th of the items it had to
/// give, and, past the last of them, nothing.
pub proof fn lemma_pulls_follow_flat<T>(state: State<T>, n: nat)
    ensures
        state.after_pulls(n).pulled() == nth(state.flat(), n),
        state.after_pulls(n).flat() == (if n <= state.flat().len() {
            state.flat().skip(n as int)
        } else {
            Seq::empty()
        }),
    decreases n,
{
    lemma_pull_takes_head(state);
    if n == 0 {
        assert(state.flat().skip(0) =~= state.flat());
    } else {
        let next = state.after_pull();
        lemma_pulls_follow_flat(next, (n - 1) as nat);
        if state.flat().len() > 0 {
            if n <= state.flat().len() {
                assert(state.flat().skip(1).skip(n - 1) =~= state.flat().skip(n as int));
            }
        }
    }
}

/// Order preservation: the pulls of an adapter wrapped around `outer` are the
/// items of the concatenation of `outer`'s inner sequences, in that order; the
/// pull number `n` is item `n` of it, and every pull past its end hands out
/// nothing.
pub proof fn lemma_order_preserved<T>(outer: Seq<Seq<T>>, n: nat)
    ensures
        State::start(outer).after_pulls(n).pulled() == nth(outer.flatten(), n),
{
    lemma_pulls_follow_flat(State::start(outer), n);
}

/// Where an item stands in the concatenation: item `j` of inner sequence `i`
/// comes after all the items of the inner sequences before `i`, and after the
/// `j` items before it in its own.
pub proof fn lemma_flatten_position<T>(outer: Seq<Seq<T>>, i: int, j: int)
    requires
        0 <= i < outer.len(),
        0 <= j < outer[i].len(),
    ensures
        outer.take(i).flatten().len() + j < outer.flatten().len(),
        outer.flatten()[outer.take(i).flatten().len() + j] == outer[i][j],
{
    let before = outer.take(i);
    let here = seq![outer[i]];
    let after = outer.skip(i + 1);
    assert(outer =~= before + here + after);
    lemma_flatten_concat(before + here, after);
    lemma_flatten_concat(before, here);
    here.lemma_flatten_one_element();
    assert(here.first() == outer[i]);
}

/// An adapter wrapped around an empty outer sequence hands out nothing on its
/// first pull, and is exhausted by it.
pub proof fn lemma_empty_outer<T>(outer: Seq<Seq<T>>)
    requires
        outer.len() == 0,
    ensures
        State::start(outer).pulled() is None,
        State::start(outer).after_pull() is Exhausted,
{
}

/// Empty inner sequences add nothing to the concatenation.
pub proof fn lemma_without_empty_flatten<T>(outer: Seq<Seq<T>>)
    ensures
        without_empty(outer).flatten() == outer.flatten(),
    decreases outer.len(),
{
    reveal(Seq::filter);
    if outer.len() > 0 {
        let front = outer.drop_last();
        lemma_without_empty_flatten(front);
        assert(outer =~= front.push(outer.last()));
        front.lemma_flatten_push(outer.last());
        without_empty(front).lemma_flatten_push(outer.last());
        if outer.last().len() == 0 {
            assert(front.flatten() + outer.last() =~= front.flatten());
        }
    }
}

/// Empty inner sequences are transparent: two outer sequences that differ only
/// in the number and the places of their empty inner sequences give the same
/// pulls.
pub proof fn lemma_empty_inner_transparent<T>(a: Seq<Seq<T>>, b: Seq<Seq<T>>, n: nat)
    requires
        without_empty(a) == without_empty(b),
    ensures
        a.flatten() == b.flatten(),
        State::start(a).after_pulls(n).pulled() == State::start(b).after_pulls(n).pulled(),
{
    lemma_without_empty_flatten(a);
    lemma_without_empty_flatten(b);
    lemma_order_preserved(a, n);
    lemma_order_preserved(b, n);
}

/// Exhaustion is sticky: once a pull has handed out nothing, the adapter is
/// exhausted, every later pull hands out nothing, and none of them changes
/// its state.
pub proof fn lemma_exhaustion_is_sticky<T>(state: State<T>, n: nat)
    requires
        state.pulled() is None,
    ensures
        state.after_pull() is Exhausted,
        state.after_pulls(n).pulled() is None,
        n > 0 ==> state.after_pulls(n) is Exhausted,
    decreases n,
{
    if n > 0 {
        lemma_exhaustion_is_sticky(state.after_pull(), (n - 1) as nat);
    }
}

/// Whether `state` is draining an inner sequence that still has an item.
pub open spec fn has_item_at_hand<T>(state: State<T>) -> bool {
    state matches State::Draining { inner, .. } && inner.len() > 0
}

/// Laziness: a pull asks the outer cursor for no more than it needs.
///
/// While the inner sequence being drained has an item, the pending inner
/// sequences are left alone. Otherwise the pull takes inner sequences from
/// the front of the pending ones up to the first that has an item, and no
/// further: those it passed over are empty, the item handed out is the first
/// of the one it stopped at, and what comes after that one stays pending. It
/// hands out nothing only when every pending inner sequence was empty.
pub proof fn lemma_pull_is_lazy<T>(state: State<T>)
    ensures
        has_item_at_hand(state) ==> state.after_pull().pending() == state.pending(),
        !has_item_at_hand(state) && state.pulled() is Some ==> ({
            let taken: int = state.pending().len() - state.after_pull().pending().len();
            &&& 1 <= taken <= state.pending().len()
            &&& forall|i: int| 0 <= i < taken - 1 ==> (#[trigger] state.pending()[i]).len() == 0
            &&& state.pending()[taken - 1].len() > 0
            &&& state.pulled() == Some(state.pending()[taken - 1][0])
            &&& state.after_pull() == (State::Draining {
                inner: state.pending()[taken - 1].skip(1),
                outer: state.pending().skip(taken),
            })
        }),
        state.pulled() is None ==> forall|i: int|
            0 <= i < state.pending().len() ==> (#[trigger] state.pending()[i]).len() == 0,
{
    lemma_leading_empty(state.pending());
}

} // verus!
