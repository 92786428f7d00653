use lazy_flatten::{flatten, Cursor};
use std::cell::Cell;
use std::rc::Rc;

/// A cursor over owned items that counts how often it is pulled.
struct Counted<T> {
    items: std::vec::IntoIter<T>,
    pulls: Rc<Cell<usize>>,
}

impl<T> Counted<T> {
    fn over(items: Vec<T>) -> (Counted<T>, Rc<Cell<usize>>) {
        let pulls = Rc::new(Cell::new(0));
        (Counted { items: items.into_iter(), pulls: pulls.clone() }, pulls)
    }
}

impl<T> Cursor for Counted<T> {
    type Item = T;

    fn next(&mut self) -> Option<T> {
        self.pulls.set(self.pulls.get() + 1);
        Iterator::next(&mut self.items)
    }
}

#[test]
fn wrapping_pulls_nothing() {
    let (first, first_pulls) = Counted::over(vec![1, 2]);
    let (second, second_pulls) = Counted::over(vec![3]);
    let (outer, outer_pulls) = Counted::over(vec![first, second]);

    let flat = flatten(outer);
    assert_eq!(outer_pulls.get(), 0);
    assert_eq!(first_pulls.get(), 0);
    assert_eq!(second_pulls.get(), 0);
    drop(flat);
    assert_eq!(outer_pulls.get(), 0);
    assert_eq!(first_pulls.get(), 0);
    assert_eq!(second_pulls.get(), 0);
}

#[test]
fn inner_sequence_is_untouched_until_its_turn() {
    let (first, first_pulls) = Counted::over(vec![1, 2]);
    let (second, second_pulls) = Counted::over(vec![3]);
    let (outer, outer_pulls) = Counted::over(vec![first, second]);
    let mut flat = flatten(outer);

    assert_eq!(flat.next(), Some(1));
    assert_eq!((outer_pulls.get(), first_pulls.get(), second_pulls.get()), (1, 1, 0));

    assert_eq!(flat.next(), Some(2));
    assert_eq!((outer_pulls.get(), first_pulls.get(), second_pulls.get()), (1, 2, 0));

    assert_eq!(flat.next(), Some(3));
    assert_eq!((outer_pulls.get(), first_pulls.get(), second_pulls.get()), (2, 3, 1));

    assert_eq!(flat.next(), None);
    assert_eq!((outer_pulls.get(), first_pulls.get(), second_pulls.get()), (3, 3, 2));
}

#[test]
fn exhausted_adapter_touches_no_cursor() {
    let (first, first_pulls) = Counted::over(vec!['a']);
    let (outer, outer_pulls) = Counted::over(vec![first]);
    let mut flat = flatten(outer);

    assert_eq!(flat.next(), Some('a'));
    assert_eq!(flat.next(), None);
    let outer_before = outer_pulls.get();
    let first_before = first_pulls.get();
    for _ in 0..50 {
        assert_eq!(flat.next(), None);
    }
    assert_eq!(outer_pulls.get(), outer_before);
    assert_eq!(first_pulls.get(), first_before);
}

#[test]
fn pull_stops_at_the_first_inner_sequence_with_an_item() {
    let (a, a_pulls) = Counted::over(Vec::<u8>::new());
    let (b, b_pulls) = Counted::over(Vec::<u8>::new());
    let (c, c_pulls) = Counted::over(vec![9u8]);
    let (d, d_pulls) = Counted::over(vec![10u8]);
    let (outer, outer_pulls) = Counted::over(vec![a, b, c, d]);
    let mut flat = flatten(outer);

    assert_eq!(flat.next(), Some(9));
    assert_eq!(outer_pulls.get(), 3);
    assert_eq!((a_pulls.get(), b_pulls.get(), c_pulls.get(), d_pulls.get()), (1, 1, 1, 0));
}

#[test]
fn item_at_hand_is_handed_out_without_asking_the_outer() {
    let (first, _) = Counted::over(vec![1, 2, 3, 4]);
    let (second, second_pulls) = Counted::over(vec![5]);
    let (outer, outer_pulls) = Counted::over(vec![first, second]);
    let mut flat = flatten(outer);

    assert_eq!(flat.next(), Some(1));
    let asked = outer_pulls.get();
    assert_eq!(flat.next(), Some(2));
    assert_eq!(flat.next(), Some(3));
    assert_eq!(flat.next(), Some(4));
    assert_eq!(outer_pulls.get(), asked);
    assert_eq!(second_pulls.get(), 0);
}

#[test]
fn owned_items_are_moved_out() {
    let (first, _) = Counted::over(vec![String::from("a"), String::from("b")]);
    let (second, _) = Counted::over(vec![String::from("c")]);
    let (outer, _) = Counted::over(vec![first, second]);
    let all: Vec<String> = flatten(outer).collect();
    assert_eq!(all, vec![String::from("a"), String::from("b"), String::from("c")]);
}
