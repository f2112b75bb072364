use rusptlib::{log, split_at_head};
use std::cell::Cell;
use std::rc::Rc;

#[test]
fn splitting_a_list_at_its_head() {
    let mut list = vec![Rc::new(1), Rc::new(2), Rc::new(3)];
    let first = list[0].clone();
    let (head, rest) = split_at_head(&mut list);
    let head = head.expect("the list has a head");
    assert!(Rc::ptr_eq(&head, &first));
    assert!(Rc::ptr_eq(&head, &list[0]));
    assert_eq!(Rc::strong_count(&first), 3);
    assert_eq!(list.len(), 1);
    assert_eq!(rest.iter().map(|n| **n).collect::<Vec<i32>>(), vec![2, 3]);

    let mut single = vec![Rc::new("only")];
    let (head, rest) = split_at_head(&mut single);
    assert_eq!(*head.unwrap(), "only");
    assert!(rest.is_empty());
    assert_eq!(single.len(), 1);
}

#[test]
fn logging_runs_only_when_enabled() {
    let calls = Cell::new(0);
    log(false, || calls.set(calls.get() + 1));
    assert_eq!(calls.get(), 0);
    log(true, || calls.set(calls.get() + 1));
    assert_eq!(calls.get(), 1);
}
