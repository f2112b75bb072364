//! Small helpers: making cells, taking a list apart, optional logging.

use crate::lisp_cell::{cells_view, CellView, LispCell};
use crate::number::{Number, SCALE};
use crate::runtime::Runtime;
use std::rc::Rc;
use vstd::prelude::*;

verus! {

/// Another handle to the value that `rc` points to.
///
/// Trusted: this is `Rc::clone` of the standard library, which copies the
/// pointer; the contract says that the result points to the same value.
#[verifier::external_body]
fn rc_clone<T>(rc: &Rc<T>) -> (r: Rc<T>)
    ensures
        r == *rc,
{
    rc.clone()
}

/// Takes a list apart: the first element, and a list of the others. The
/// first element stays in `list`, alone.
pub fn split_at_head<T>(list: &mut Vec<Rc<T>>) -> (r: (Option<Rc<T>>, Vec<Rc<T>>))
    requires
        old(list).len() >= 1,
    ensures
        r.0 == Some(old(list)@[0]),
        r.1@ == old(list)@.skip(1),
        final(list)@ == old(list)@.take(1),
{
    let head: Option<Rc<T>> = Some(rc_clone(&list[0]));
    let rest: Vec<Rc<T>> = list.split_off(1);
    (head, rest)
}

/// Runs `log_fn` if logging is enabled, and not otherwise.
pub fn log<F: FnOnce()>(enabled: bool, log_fn: F)
    requires
        enabled ==> call_requires(log_fn, ()),
    ensures
        enabled ==> call_ensures(log_fn, (), ()),
{
    if enabled {
        log_fn();
    }
}

/// The cell of a whole number.
pub fn make_num(num: i32) -> (r: LispCell)
    ensures
        r@ == CellView::Number(num * SCALE),
{
    LispCell::Number(Number::from_int(num))
}

/// The cell of an atom.
pub fn make_atom(name: &str) -> (r: LispCell)
    ensures
        r@ == CellView::Atom(name@),
{
    LispCell::Atom(String::from_str(name))
}

/// The cell of a new list of the given cells.
pub fn make_list(rt: &mut Runtime, list: Vec<LispCell>) -> (r: LispCell)
    ensures
        final(rt)@ == old(rt)@.with_list(cells_view(list@)),
        r@ == CellView::List(old(rt)@.next_list()),
{
    LispCell::new_list(rt, list)
}

/// The cell that quotes another.
pub fn make_quoted(cell: LispCell) -> (r: LispCell)
    ensures
        r@ == CellView::Quoted(Box::new(cell@)),
{
    LispCell::Quoted(Box::new(cell))
}

/// The cell of a boolean.
pub fn make_bool(val: bool) -> (r: LispCell)
    ensures
        r@ == CellView::Bool(val),
{
    LispCell::Bool(val)
}

} // verus!
