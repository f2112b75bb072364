//! Function values: their name, how they take their arguments, and what
//! runs when they are called.

use crate::lisp_cell::{CellView, LispCell};
use vstd::prelude::*;

verus! {

/// How a function receives its arguments: a normal function gets them
/// evaluated, a special form or a macro gets them as written.
#[derive(Clone, Copy, Debug, PartialEq, Eq, Structural)]
pub enum LispFuncType {
    Macro,
    SpecialForm,
    Normal,
}

/// The built-in operations.
#[derive(Clone, Copy, Debug, PartialEq, Eq, Structural)]
pub enum NativeOp {
    Add,
    Sub,
    Mul,
    Div,
    List,
    Def,
    Defn,
    Do,
    Push,
    Car,
    Cdr,
    If,
    Eq,
    Lambda,
}

/// What runs when a function is called: a built-in operation, or a body
/// with parameter names and, for a closure, the scope it captured. A
/// defined function without a scope runs in the scope of its caller.
#[derive(Debug)]
pub enum LispFuncExecutor {
    Native(NativeOp),
    Defined { scope: Option<usize>, arg_names: Vec<String>, func_body: Box<LispCell> },
}

/// A function value.
#[derive(Debug)]
pub struct LispFunc {
    pub name: String,
    pub func_type: LispFuncType,
    pub func_executor: LispFuncExecutor,
}

/// The model of a `LispFuncExecutor`.
pub enum ExecutorView {
    Native(NativeOp),
    Defined { scope: Option<usize>, arg_names: Seq<Seq<char>>, func_body: Box<CellView> },
}

/// The model of a `LispFunc`.
pub struct FuncView {
    pub name: Seq<char>,
    pub func_type: LispFuncType,
    pub func_executor: ExecutorView,
}

/// The texts of a sequence of strings.
pub open spec fn names_view(names: Seq<String>) -> Seq<Seq<char>> {
    names.map_values(|s: String| s@)
}

impl View for LispFuncExecutor {
    type V = ExecutorView;

    open spec fn view(&self) -> ExecutorView {
        crate::lisp_cell::executor_view(*self)
    }
}

impl View for LispFunc {
    type V = FuncView;

    open spec fn view(&self) -> FuncView {
        crate::lisp_cell::func_view(*self)
    }
}

/// A copy of a vector of strings.
pub fn clone_names(names: &Vec<String>) -> (r: Vec<String>)
    ensures
        names_view(r@) == names_view(names@),
{
    let mut out: Vec<String> = Vec::new();
    let mut i: usize = 0;
    while i < names.len()
        invariant
            i <= names.len(),
            out@.len() == i,
            forall|j: int| 0 <= j < i ==> out@[j]@ == names@[j]@,
        decreases names.len() - i,
    {
        out.push(names[i].clone());
        i += 1;
    }
    out
}

impl Clone for LispFuncExecutor {
    fn clone(&self) -> (r: Self)
        ensures
            r@ == self@,
        decreases self,
    {
        match self {
            LispFuncExecutor::Native(op) => LispFuncExecutor::Native(*op),
            LispFuncExecutor::Defined { scope, arg_names, func_body } => LispFuncExecutor::Defined {
                scope: *scope,
                arg_names: clone_names(arg_names),
                func_body: Box::new((&**func_body).clone()),
            },
        }
    }
}

impl Clone for LispFunc {
    fn clone(&self) -> (r: Self)
        ensures
            r@ == self@,
        decreases self,
    {
        LispFunc {
            name: self.name.clone(),
            func_type: self.func_type,
            func_executor: self.func_executor.clone(),
        }
    }
}

impl LispFunc {
    /// A function value made of its three parts.
    pub fn new(name: String, func_type: LispFuncType, func_executor: LispFuncExecutor) -> (r:
        LispFunc)
        ensures
            r@ == (FuncView { name: name@, func_type, func_executor: func_executor@ }),
    {
        LispFunc { name, func_type, func_executor }
    }
}

} // verus!
