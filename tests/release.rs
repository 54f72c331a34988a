use rawn::{BoxRaw, BoxRaws};
use std::cell::RefCell;
use std::rc::Rc;

/// A pointee whose destructor records its id in a shared log.
struct Noisy {
    id: u32,
    log: Rc<RefCell<Vec<u32>>>,
}

impl Drop for Noisy {
    fn drop(&mut self) {
        self.log.borrow_mut().push(self.id);
    }
}

fn noisy(id: u32, log: &Rc<RefCell<Vec<u32>>>) -> Box<Noisy> {
    Box::new(Noisy { id, log: Rc::clone(log) })
}

fn new_log() -> Rc<RefCell<Vec<u32>>> {
    Rc::new(RefCell::new(Vec::new()))
}

/// Every pointee has been dropped once the log is the only owner left.
fn all_freed(log: &Rc<RefCell<Vec<u32>>>) -> bool {
    Rc::strong_count(log) == 1
}

#[test]
fn pass_miri() {
    let x = Box::new(2u8);
    x.clean();

    let x = (Box::new(2u8), Box::new(2u32));
    x.clean();

    let i = Box::new(0);

    let x = (i, Box::new(2u32), Box::new(String::from("raw")));
    x.clean();
}

#[test]
fn not_pass_miri() {
    // A released handle cannot be read again: it was moved into `clean`.
    // What stays readable is the value the handle was made from.
    let v = 0;
    let i = Box::new(v);

    let x = (i, Box::new(14u32));

    x.clean();

    let y = v + 10;
    assert_eq!(y, 10);
}

#[test]
fn box_raws() {
    let x: Box<Vec<String>> = Box::new(vec![String::from("Rome")]);
    let y = Box::new(10i32);

    (x, y).clean();

    // use struct `BoxRaws`
    let x: Box<Vec<String>> = Box::new(vec![String::from("Rome")]);
    let y = Box::new(10i32);

    let raws = BoxRaws::new((x, y));
    raws.clean();
}

#[test]
fn single_handle_runs_destructor() {
    let log = new_log();
    let x = noisy(7, &log);
    assert!(log.borrow().is_empty());
    x.clean();
    assert_eq!(*log.borrow(), vec![7]);
    assert!(all_freed(&log));
}

#[test]
fn text_and_number_released_one_by_one() {
    let log = new_log();
    let text = Box::new((String::from("raw"), noisy(1, &log)));
    let number = Box::new((42u64, noisy(2, &log)));
    text.clean();
    number.clean();
    assert_eq!(*log.borrow(), vec![1, 2]);
    assert!(all_freed(&log));
}

#[test]
fn every_arity_frees_all_in_order() {
    let log = new_log();
    let l = &log;
    (noisy(0, l),).clean();
    (noisy(0, l), noisy(1, l)).clean();
    (noisy(0, l), noisy(1, l), noisy(2, l)).clean();
    (noisy(0, l), noisy(1, l), noisy(2, l), noisy(3, l)).clean();
    (noisy(0, l), noisy(1, l), noisy(2, l), noisy(3, l), noisy(4, l)).clean();
    (noisy(0, l), noisy(1, l), noisy(2, l), noisy(3, l), noisy(4, l), noisy(5, l)).clean();
    (
        noisy(0, l),
        noisy(1, l),
        noisy(2, l),
        noisy(3, l),
        noisy(4, l),
        noisy(5, l),
        noisy(6, l),
    )
        .clean();
    (
        noisy(0, l),
        noisy(1, l),
        noisy(2, l),
        noisy(3, l),
        noisy(4, l),
        noisy(5, l),
        noisy(6, l),
        noisy(7, l),
    )
        .clean();
    (
        noisy(0, l),
        noisy(1, l),
        noisy(2, l),
        noisy(3, l),
        noisy(4, l),
        noisy(5, l),
        noisy(6, l),
        noisy(7, l),
        noisy(8, l),
    )
        .clean();
    (
        noisy(0, l),
        noisy(1, l),
        noisy(2, l),
        noisy(3, l),
        noisy(4, l),
        noisy(5, l),
        noisy(6, l),
        noisy(7, l),
        noisy(8, l),
        noisy(9, l),
    )
        .clean();
    (
        noisy(0, l),
        noisy(1, l),
        noisy(2, l),
        noisy(3, l),
        noisy(4, l),
        noisy(5, l),
        noisy(6, l),
        noisy(7, l),
        noisy(8, l),
        noisy(9, l),
        noisy(10, l),
    )
        .clean();
    (
        noisy(0, l),
        noisy(1, l),
        noisy(2, l),
        noisy(3, l),
        noisy(4, l),
        noisy(5, l),
        noisy(6, l),
        noisy(7, l),
        noisy(8, l),
        noisy(9, l),
        noisy(10, l),
        noisy(11, l),
    )
        .clean();
    let mut expected: Vec<u32> = Vec::new();
    for n in 1..=12u32 {
        expected.extend(0..n);
    }
    assert_eq!(*log.borrow(), expected);
    assert!(all_freed(&log));
}

#[test]
fn wrapper_releases_like_its_grouping() {
    let plain = new_log();
    (noisy(3, &plain), noisy(1, &plain), noisy(2, &plain)).clean();

    let wrapped = new_log();
    BoxRaws::new((noisy(3, &wrapped), noisy(1, &wrapped), noisy(2, &wrapped))).clean();

    assert_eq!(*plain.borrow(), vec![3, 1, 2]);
    assert_eq!(*wrapped.borrow(), *plain.borrow());
    assert!(all_freed(&plain));
    assert!(all_freed(&wrapped));
}

#[test]
fn nested_grouping_releases_each_once() {
    let log = new_log();
    let flat = (
        Box::new((String::from("Rome"), noisy(1, &log))),
        Box::new((10i32, noisy(2, &log))),
        Box::new((14u32, noisy(3, &log))),
    );
    flat.clean();
    assert_eq!(*log.borrow(), vec![1, 2, 3]);

    let nested = ((noisy(4, &log), noisy(5, &log)), noisy(6, &log));
    nested.clean();
    assert_eq!(*log.borrow(), vec![1, 2, 3, 4, 5, 6]);
    assert!(all_freed(&log));
}

#[test]
fn wrapper_inside_grouping() {
    let log = new_log();
    let g = (noisy(1, &log), BoxRaws::new((noisy(2, &log), (noisy(3, &log),))), noisy(4, &log));
    g.clean();
    assert_eq!(*log.borrow(), vec![1, 2, 3, 4]);
    assert!(all_freed(&log));
}
