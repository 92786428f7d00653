use lazy_flatten::{flatten, Cursor};

#[test]
fn flatten_ints() {
    let v = vec![vec![1, 2], vec![3, 4]];
    let mut flat_it = flatten(&v);
    assert_eq!(Some(&1), flat_it.next());
    assert_eq!(Some(&2), flat_it.next());
    assert_eq!(Some(&3), flat_it.next());
    assert_eq!(Some(&4), flat_it.next());
    assert_eq!(None, flat_it.next());
    // one more pull after the end
    assert_eq!(None, flat_it.next());

    flat_it = flatten(&v);
    let flat: Vec<&i32> = flat_it.collect();
    assert_eq!(vec![&1, &2, &3, &4], flat);
}

#[test]
fn flatten_chars() {
    let vs = vec![vec!['a', 'b'], vec!['c']];
    let mut flat_it = flatten(&vs);
    assert_eq!(Some(&'a'), flat_it.next());
    assert_eq!(Some(&'b'), flat_it.next());
    assert_eq!(Some(&'c'), flat_it.next());
    assert_eq!(None, flat_it.next());
}

#[test]
fn flatten_empty_vec() {
    let v: Vec<Vec<i32>> = vec![];
    let mut flat_it = flatten(&v);
    assert_eq!(None, flat_it.next());
}

#[test]
fn flatten_ints_with_empty() {
    let v = vec![vec![1, 2], vec![], vec![], vec![3, 4], vec![]];
    let mut flat_it = flatten(&v);
    assert_eq!(Some(&1), flat_it.next());
    assert_eq!(Some(&2), flat_it.next());
    assert_eq!(Some(&3), flat_it.next());
    assert_eq!(Some(&4), flat_it.next());
    assert_eq!(None, flat_it.next());
    // one more pull after the end
    assert_eq!(None, flat_it.next());

    flat_it = flatten(&v);
    let flat: Vec<&i32> = flat_it.collect();
    assert_eq!(vec![&1, &2, &3, &4], flat);
}
