//! A lazy flattening adapter.
//!
//! Given a sequence of sequences, [`flatten`] gives one cursor that hands
//! out every item of every inner sequence, outer order first and inner order
//! second. No flat collection is built: the adapter holds the cursor of the
//! outer sequence and the cursor of at most one inner sequence, and moves
//! them only when it is pulled.
//!
//! Two levels are flattened at a time; an adapter is a source itself, so
//! deeper nesting is flattened by wrapping an adapter into another.
//!
//! - [`cursor`]: what a pull-based sequence is: [`Cursor`] and [`Source`].
//! - [`slice`]: cursors over borrowed slices and vectors.
//! - [`owned`]: a cursor over an owned queue, handing out items by value.
//! - [`adapter`]: the adapter, [`Flatten`].
//! - [`state`]: the adapter's state and what a pull does to it, as
//!   mathematics.
//! - [`laws`]: what holds of every adapter.

pub mod adapter;
pub mod cursor;
pub mod laws;
pub mod owned;
pub mod slice;
pub mod state;

pub use crate::adapter::{flatten, Flatten};
pub use crate::cursor::{Cursor, Source};
