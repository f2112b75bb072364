//! The evaluator: what a cell evaluates to, as a function of the state,
//! and the code that computes it.

use crate::error::LispError;
use crate::lisp_cell::{cells_view, CellView, LispCell};
use crate::lisp_func::{ExecutorView, LispFuncExecutor, LispFuncType, NativeOp};
use crate::number::ArithOp;
use crate::ops::{
    arith_spec, car, car_spec, cdr, cdr_spec, def, def_spec, defn, defn_spec, dew, dew_spec, div,
    eq, eq_spec, iff, iff_spec, lambda, lambda_spec, list, list_spec, pure_outcome, push,
    push_spec,
};
use crate::program::LispProgram;
use crate::runtime::{grows, Runtime, RuntimeView, Scope};
use vstd::prelude::*;

verus! {

/// An evaluation that was abandoned: the state at the point of failure,
/// and the error. Nothing that stands behind that point has run.
pub type Failure = (RuntimeView, LispError);

/// How an evaluation ends: with the state it left and the value it gave,
/// or as a failure.
pub type Outcome = Result<(RuntimeView, CellView), Failure>;

/// How the evaluation of a sequence ends.
pub type Outcomes = Result<(RuntimeView, Seq<CellView>), Failure>;

/// What a call returned and the state it left, as an outcome.
pub open spec fn outcome(r: Result<LispCell, LispError>, st: RuntimeView) -> Outcome {
    match r {
        Ok(c) => Ok((st, c@)),
        Err(e) => Err((st, e)),
    }
}

/// The values that a call returned and the state it left, as outcomes.
pub open spec fn outcomes(r: Result<Vec<LispCell>, LispError>, st: RuntimeView) -> Outcomes {
    match r {
        Ok(v) => Ok((st, cells_view(v@))),
        Err(e) => Err((st, e)),
    }
}

/// The value of a cell in a scope, and the state that evaluating it
/// leaves. An atom gives what it is bound to; a number, a string or a
/// boolean gives itself; a quoted cell gives the cell inside; a list is a
/// call of its first cell on the others. Each nested evaluation costs one
/// unit of `depth`.
pub open spec fn eval(st: RuntimeView, scope: Scope, cell: CellView, depth: nat) -> Outcome
    decreases depth, 0nat, 0nat,
{
    if depth == 0 {
        Err((st, LispError::DepthExceeded))
    } else {
        match cell {
            CellView::Atom(name) => match st.lookup(scope, name) {
                Some(v) => Ok((st, v)),
                None => Err((st, LispError::UnboundSymbol)),
            },
            CellView::Number(_) | CellView::Str(_) | CellView::Bool(_) => Ok((st, cell)),
            CellView::Quoted(inner) => Ok((st, *inner)),
            CellView::Func(_) => Err((st, LispError::TypeMismatch)),
            CellView::List(l) => {
                let items = st.items(l);
                if items.len() == 0 {
                    Err((st, LispError::TypeMismatch))
                } else {
                    match eval(st, scope, items[0], (depth - 1) as nat) {
                        Err(e) => Err(e),
                        Ok((st1, head)) => call_fn_spec(
                            st1,
                            scope,
                            head,
                            items.skip(1),
                            (depth - 1) as nat,
                        ),
                    }
                }
            },
        }
    }
}

/// Evaluates `args[i..]` from left to right and adds the values to `acc`.
pub open spec fn eval_args(
    st: RuntimeView,
    scope: Scope,
    args: Seq<CellView>,
    i: nat,
    acc: Seq<CellView>,
    depth: nat,
) -> Outcomes
    decreases depth, 1nat, args.len() - i,
{
    if i >= args.len() {
        Ok((st, acc))
    } else {
        match eval(st, scope, args[i as int], depth) {
            Err(e) => Err(e),
            Ok((st1, v)) => eval_args(st1, scope, args, i + 1, acc.push(v), depth),
        }
    }
}

/// A call of a cell, which must be a function: a normal function gets its
/// arguments evaluated, from left to right; a special form or a macro
/// gets them as they stand.
pub open spec fn call_fn_spec(
    st: RuntimeView,
    scope: Scope,
    function_cell: CellView,
    args: Seq<CellView>,
    depth: nat,
) -> Outcome
    decreases depth, 5nat, 0nat,
{
    match function_cell {
        CellView::Func(f) => match f.func_type {
            LispFuncType::Normal => match eval_args(
                st,
                scope,
                args,
                0,
                Seq::<CellView>::empty(),
                depth,
            ) {
                Err(e) => Err(e),
                Ok((st1, values)) => invoke(st1, scope, f.func_executor, values, depth),
            },
            _ => invoke(st, scope, f.func_executor, args, depth),
        },
        _ => Err((st, LispError::NotCallable)),
    }
}

/// The state in which a scope binds `names[i..]` to `values[i..]`, one by
/// one.
pub open spec fn bind_all(
    st: RuntimeView,
    scope: Scope,
    names: Seq<Seq<char>>,
    values: Seq<CellView>,
    i: nat,
) -> RuntimeView
    decreases names.len() - i,
{
    if i >= names.len() {
        st
    } else {
        bind_all(st.bind(scope, names[i as int], values[i as int]), scope, names, values, i + 1)
    }
}

/// Runs an executor on arguments. A defined function binds its parameters
/// in the scope it captured, or in the caller's if it captured none, and
/// evaluates its body there.
pub open spec fn invoke(
    st: RuntimeView,
    scope: Scope,
    executor: ExecutorView,
    args: Seq<CellView>,
    depth: nat,
) -> Outcome
    decreases depth, 4nat, 0nat,
{
    match executor {
        ExecutorView::Native(op) => apply_native(st, scope, op, args, depth),
        ExecutorView::Defined { scope: captured, arg_names, func_body } => {
            let target = match captured {
                Some(k) => Scope::Captured(k),
                None => scope,
            };
            if !st.has_scope(target) {
                Err((st, LispError::NotCallable))
            } else if args.len() != arg_names.len() {
                Err((st, LispError::ArityMismatch))
            } else {
                eval(bind_all(st, target, arg_names, args, 0), target, *func_body, depth)
            }
        },
    }
}

/// Runs a built-in operation on arguments.
pub open spec fn apply_native(
    st: RuntimeView,
    scope: Scope,
    op: NativeOp,
    args: Seq<CellView>,
    depth: nat,
) -> Outcome
    decreases depth, 3nat, 0nat,
{
    match op {
        NativeOp::Add => pure_outcome(st, arith_spec(ArithOp::Add, args)),
        NativeOp::Sub => pure_outcome(st, arith_spec(ArithOp::Sub, args)),
        NativeOp::Mul => pure_outcome(st, arith_spec(ArithOp::Mul, args)),
        NativeOp::Div => pure_outcome(st, arith_spec(ArithOp::Div, args)),
        NativeOp::List => list_spec(st, args),
        NativeOp::Def => def_spec(st, scope, args, depth),
        NativeOp::Defn => defn_spec(st, scope, args),
        NativeOp::Do => dew_spec(st, scope, args, depth),
        NativeOp::Push => push_spec(st, args),
        NativeOp::Car => car_spec(st, args),
        NativeOp::Cdr => cdr_spec(st, args),
        NativeOp::If => iff_spec(st, scope, args, depth),
        NativeOp::Eq => eq_spec(st, args, depth),
        NativeOp::Lambda => lambda_spec(st, scope, args),
    }
}

/// Evaluates a cell in a scope, with a depth budget.
pub fn exec_rec(rt: &mut Runtime, scope: Scope, cell: &LispCell, depth: usize) -> (r: Result<
    LispCell,
    LispError,
>)
    requires
        old(rt)@.has_scope(scope),
    ensures
        outcome(r, final(rt)@) == eval(old(rt)@, scope, cell@, depth as nat),
        grows(old(rt)@, final(rt)@),
    decreases depth, 0nat, 0nat,
{
    if depth == 0 {
        return Err(LispError::DepthExceeded);
    }
    match cell {
        LispCell::Atom(name) => match rt.lookup(scope, name) {
            Some(v) => Ok(v),
            None => Err(LispError::UnboundSymbol),
        },
        LispCell::Number(_) => Ok(cell.clone()),
        LispCell::Str(_) => Ok(cell.clone()),
        LispCell::Bool(_) => Ok(cell.clone()),
        LispCell::Quoted(inner) => Ok((&**inner).clone()),
        LispCell::Func(_) => Err(LispError::TypeMismatch),
        LispCell::List(l) => {
            let mut items: Vec<LispCell> = rt.items(*l);
            if items.len() == 0 {
                return Err(LispError::TypeMismatch);
            }
            let ghost all = cells_view(items@);
            let first: LispCell = items.remove(0);
            assert(cells_view(items@) =~= all.skip(1));
            match exec_rec(rt, scope, &first, depth - 1) {
                Err(e) => Err(e),
                Ok(function_cell) => call_fn(rt, scope, &function_cell, &items, depth - 1),
            }
        },
    }
}

/// Evaluates cells from left to right.
fn exec_args(rt: &mut Runtime, scope: Scope, args: &Vec<LispCell>, depth: usize) -> (r: Result<
    Vec<LispCell>,
    LispError,
>)
    requires
        old(rt)@.has_scope(scope),
    ensures
        outcomes(r, final(rt)@) == eval_args(
            old(rt)@,
            scope,
            cells_view(args@),
            0,
            Seq::<CellView>::empty(),
            depth as nat,
        ),
        grows(old(rt)@, final(rt)@),
    decreases depth, 1nat, args.len(),
{
    let mut out: Vec<LispCell> = Vec::new();
    let mut i: usize = 0;
    assert(cells_view(out@) =~= Seq::<CellView>::empty());
    while i < args.len()
        invariant
            i <= args.len(),
            rt@.has_scope(scope),
            grows(old(rt)@, rt@),
            eval_args(
                old(rt)@,
                scope,
                cells_view(args@),
                0,
                Seq::<CellView>::empty(),
                depth as nat,
            ) == eval_args(rt@, scope, cells_view(args@), i as nat, cells_view(out@), depth as nat),
        decreases args.len() - i,
    {
        let ghost before = cells_view(out@);
        match exec_rec(rt, scope, &args[i], depth) {
            Err(e) => {
                return Err(e);
            },
            Ok(v) => {
                out.push(v);
                assert(cells_view(out@) =~= before.push(v@));
            },
        }
        i += 1;
    }
    Ok(out)
}

/// Calls a cell, which must be a function, on arguments as they stand in
/// the call.
pub fn call_fn(
    rt: &mut Runtime,
    scope: Scope,
    function_cell: &LispCell,
    args: &Vec<LispCell>,
    depth: usize,
) -> (r: Result<LispCell, LispError>)
    requires
        old(rt)@.has_scope(scope),
    ensures
        outcome(r, final(rt)@) == call_fn_spec(
            old(rt)@,
            scope,
            function_cell@,
            cells_view(args@),
            depth as nat,
        ),
        grows(old(rt)@, final(rt)@),
    decreases depth, 5nat, 0nat,
{
    match function_cell {
        LispCell::Func(function) => {
            assert(function@.func_type == function.func_type && function@.func_executor
                == function.func_executor@);
            match function.func_type {
                LispFuncType::Normal => {
                    let values: Vec<LispCell> = match exec_args(rt, scope, args, depth) {
                        Err(e) => {
                            return Err(e);
                        },
                        Ok(v) => v,
                    };
                    run_executor(rt, scope, &function.func_executor, &values, depth)
                },
                _ => run_executor(rt, scope, &function.func_executor, args, depth),
            }
        },
        _ => Err(LispError::NotCallable),
    }
}

/// Runs an executor on arguments.
fn run_executor(
    rt: &mut Runtime,
    scope: Scope,
    executor: &LispFuncExecutor,
    args: &Vec<LispCell>,
    depth: usize,
) -> (r: Result<LispCell, LispError>)
    requires
        old(rt)@.has_scope(scope),
    ensures
        outcome(r, final(rt)@) == invoke(
            old(rt)@,
            scope,
            executor@,
            cells_view(args@),
            depth as nat,
        ),
        grows(old(rt)@, final(rt)@),
    decreases depth, 4nat, 0nat,
{
    match executor {
        LispFuncExecutor::Native(op) => run_native(rt, scope, *op, args, depth),
        LispFuncExecutor::Defined { scope: captured, arg_names, func_body } => {
            let target: Scope = match captured {
                Some(k) => Scope::Captured(*k),
                None => scope,
            };
            if !rt.has_scope(target) {
                return Err(LispError::NotCallable);
            }
            if args.len() != arg_names.len() {
                return Err(LispError::ArityMismatch);
            }
            let ghost names = crate::lisp_func::names_view(arg_names@);
            let ghost values = cells_view(args@);
            let mut i: usize = 0;
            while i < arg_names.len()
                invariant
                    i <= arg_names.len(),
                    args.len() == arg_names.len(),
                    names == crate::lisp_func::names_view(arg_names@),
                    values == cells_view(args@),
                    rt@.has_scope(target),
                    grows(old(rt)@, rt@),
                    bind_all(old(rt)@, target, names, values, 0) == bind_all(
                        rt@,
                        target,
                        names,
                        values,
                        i as nat,
                    ),
                decreases arg_names.len() - i,
            {
                rt.bind(target, arg_names[i].clone(), args[i].clone());
                i += 1;
            }
            exec_rec(rt, target, &**func_body, depth)
        },
    }
}

/// Runs a built-in operation on arguments.
fn run_native(
    rt: &mut Runtime,
    scope: Scope,
    op: NativeOp,
    args: &Vec<LispCell>,
    depth: usize,
) -> (r: Result<LispCell, LispError>)
    requires
        old(rt)@.has_scope(scope),
    ensures
        outcome(r, final(rt)@) == apply_native(
            old(rt)@,
            scope,
            op,
            cells_view(args@),
            depth as nat,
        ),
        grows(old(rt)@, final(rt)@),
    decreases depth, 3nat, 0nat,
{
    match op {
        NativeOp::Add => crate::ops::add(args),
        NativeOp::Sub => crate::ops::sub(args),
        NativeOp::Mul => crate::ops::mul(args),
        NativeOp::Div => div(args),
        NativeOp::List => list(rt, args),
        NativeOp::Def => def(rt, scope, args, depth),
        NativeOp::Defn => defn(rt, scope, args),
        NativeOp::Do => dew(rt, scope, args, depth),
        NativeOp::Push => push(rt, args),
        NativeOp::Car => car(rt, args),
        NativeOp::Cdr => cdr(rt, args),
        NativeOp::If => iff(rt, scope, args, depth),
        NativeOp::Eq => eq(rt, args, depth),
        NativeOp::Lambda => lambda(rt, scope, args),
    }
}

/// Evaluates a cell in the root scope, with the runtime's depth budget.
pub fn exec(rt: &mut Runtime, cell: LispCell) -> (r: Result<LispCell, LispError>)
    ensures
        outcome(r, final(rt)@) == eval(old(rt)@, Scope::Root, cell@, old(rt)@.max_depth),
        grows(old(rt)@, final(rt)@),
{
    let depth: usize = rt.max_depth();
    exec_rec(rt, Scope::Root, &cell, depth)
}

/// Evaluates a cell in the root scope, with the runtime's depth budget.
pub fn exec_ref(rt: &mut Runtime, cell_ref: &LispCell) -> (r: Result<LispCell, LispError>)
    ensures
        outcome(r, final(rt)@) == eval(old(rt)@, Scope::Root, cell_ref@, old(rt)@.max_depth),
        grows(old(rt)@, final(rt)@),
{
    let depth: usize = rt.max_depth();
    exec_rec(rt, Scope::Root, cell_ref, depth)
}

/// Evaluates the entry of a program in the root scope. A program without
/// an entry has nothing to evaluate.
pub fn exec_prog(rt: &mut Runtime, program: LispProgram) -> (r: Result<LispCell, LispError>)
    requires
        program.entry is Some,
    ensures
        outcome(r, final(rt)@) == eval(
            old(rt)@,
            Scope::Root,
            program.entry->0@,
            old(rt)@.max_depth,
        ),
        grows(old(rt)@, final(rt)@),
{
    match program.entry {
        Some(e) => exec(rt, e),
        None => Err(LispError::TypeMismatch),
    }
}

} // verus!
