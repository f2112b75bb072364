//! Cells, the one kind of value, and their model.

use crate::lisp_func::{names_view, ExecutorView, FuncView, LispFunc, LispFuncExecutor};
use crate::lisp_list::LispList;
use crate::error::LispError;
use crate::number::Number;
use crate::runtime::Runtime;
use vstd::prelude::*;

verus! {

/// A value: every datum and every piece of program text is a cell. Cells
/// are plain values and are copied freely; only the lists they point to
/// are shared.
#[derive(Debug)]
pub enum LispCell {
    Atom(String),
    Number(Number),
    Bool(bool),
    Str(String),
    Quoted(Box<LispCell>),
    Func(LispFunc),
    List(LispList),
}

/// The model of a `LispCell`: texts as sequences of characters, a number
/// as its count of millionths.
pub enum CellView {
    Atom(Seq<char>),
    Number(int),
    Bool(bool),
    Str(Seq<char>),
    Quoted(Box<CellView>),
    Func(FuncView),
    List(LispList),
}

/// The model of a cell.
pub open spec fn cell_view(c: LispCell) -> CellView
    decreases c,
{
    match c {
        LispCell::Atom(s) => CellView::Atom(s@),
        LispCell::Number(n) => CellView::Number(n@),
        LispCell::Bool(b) => CellView::Bool(b),
        LispCell::Str(s) => CellView::Str(s@),
        LispCell::Quoted(inner) => CellView::Quoted(Box::new(cell_view(*inner))),
        LispCell::Func(f) => CellView::Func(func_view(f)),
        LispCell::List(l) => CellView::List(l),
    }
}

/// The model of a function value.
pub open spec fn func_view(f: LispFunc) -> FuncView
    decreases f,
{
    FuncView {
        name: f.name@,
        func_type: f.func_type,
        func_executor: executor_view(f.func_executor),
    }
}

/// The model of an executor.
pub open spec fn executor_view(e: LispFuncExecutor) -> ExecutorView
    decreases e,
{
    match e {
        LispFuncExecutor::Native(op) => ExecutorView::Native(op),
        LispFuncExecutor::Defined { scope, arg_names, func_body } => ExecutorView::Defined {
            scope,
            arg_names: names_view(arg_names@),
            func_body: Box::new(cell_view(*func_body)),
        },
    }
}

impl View for LispCell {
    type V = CellView;

    open spec fn view(&self) -> CellView {
        cell_view(*self)
    }
}

/// The models of a sequence of cells.
pub open spec fn cells_view(cells: Seq<LispCell>) -> Seq<CellView> {
    cells.map_values(|c: LispCell| c@)
}

impl Clone for LispCell {
    fn clone(&self) -> (r: Self)
        ensures
            r@ == self@,
        decreases self,
    {
        match self {
            LispCell::Atom(s) => LispCell::Atom(s.clone()),
            LispCell::Number(n) => LispCell::Number(*n),
            LispCell::Bool(b) => LispCell::Bool(*b),
            LispCell::Str(s) => LispCell::Str(s.clone()),
            LispCell::Quoted(inner) => LispCell::Quoted(Box::new((&**inner).clone())),
            LispCell::Func(f) => LispCell::Func(f.clone()),
            LispCell::List(l) => LispCell::List(*l),
        }
    }
}

/// A result over cells, seen as a result over models.
pub open spec fn cell_result(r: Result<LispCell, LispError>) -> Result<CellView, LispError> {
    match r {
        Ok(c) => Ok(c@),
        Err(e) => Err(e),
    }
}

impl LispCell {
    /// A cell that is a new list of the given cells, in order.
    pub fn new_list(rt: &mut Runtime, list: Vec<LispCell>) -> (r: LispCell)
        ensures
            final(rt)@ == old(rt)@.with_list(cells_view(list@)),
            r@ == CellView::List(old(rt)@.next_list()),
    {
        LispCell::List(rt.new_list(list))
    }
}

/// A cell that is a new empty list.
pub fn lisp_null(rt: &mut Runtime) -> (r: LispCell)
    ensures
        final(rt)@ == old(rt)@.with_list(Seq::<CellView>::empty()),
        r@ == CellView::List(old(rt)@.next_list()),
{
    let r = LispCell::new_list(rt, Vec::new());
    assert(cells_view(Seq::<LispCell>::empty()) =~= Seq::<CellView>::empty());
    r
}

/// A copy of a vector of cells.
pub fn clone_cells(cells: &Vec<LispCell>) -> (r: Vec<LispCell>)
    ensures
        cells_view(r@) == cells_view(cells@),
{
    let mut out: Vec<LispCell> = Vec::new();
    let mut i: usize = 0;
    while i < cells.len()
        invariant
            i <= cells.len(),
            out@.len() == i,
            forall|j: int| 0 <= j < i ==> out@[j]@ == cells@[j]@,
        decreases cells.len() - i,
    {
        out.push(cells[i].clone());
        i += 1;
    }
    out
}

} // verus!
