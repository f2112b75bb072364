//! The built-in operations: what each gives, and the code that computes
//! it.

use crate::error::LispError;
use crate::exec::{eval, exec_rec, outcome, Outcome};
use crate::lisp_cell::{cell_result, cells_view, clone_cells, lisp_null, CellView, LispCell};
use crate::lisp_func::{
    names_view, ExecutorView, FuncView, LispFunc, LispFuncExecutor, LispFuncType,
};
use crate::lisp_list::LispList;
use crate::number::{arith, ArithOp, Number, SCALE};
use crate::runtime::{grows, Runtime, RuntimeView, Scope};
use vstd::prelude::*;

verus! {

// ---------------------------------------------------------------------
// Arithmetic
// ---------------------------------------------------------------------
/// Whether every cell is a number.
pub open spec fn all_numbers(args: Seq<CellView>) -> bool {
    forall|i: int| 0 <= i < args.len() ==> (#[trigger] args[i]) is Number
}

/// The counts of a sequence of numbers.
pub open spec fn payloads(args: Seq<CellView>) -> Seq<int> {
    Seq::new(args.len(), |i: int| args[i]->Number_0)
}

/// Folds `nums[i..]` into `acc` from left to right; the first operation
/// that fails ends the fold with its error.
pub open spec fn fold_from(op: ArithOp, nums: Seq<int>, i: nat, acc: int) -> Result<int, LispError>
    decreases nums.len() - i,
{
    if i >= nums.len() {
        Ok(acc)
    } else {
        match arith(op, acc, nums[i as int]) {
            Err(e) => Err(e),
            Ok(v) => fold_from(op, nums, i + 1, v),
        }
    }
}

/// A count as a number cell.
pub open spec fn number_cell(r: Result<int, LispError>) -> Result<CellView, LispError> {
    match r {
        Ok(v) => Ok(CellView::Number(v)),
        Err(e) => Err(e),
    }
}

/// What an arithmetic operator gives on its arguments. A sum starts from
/// zero and a product from one; a difference and a quotient start from
/// the first argument and need one.
pub open spec fn arith_spec(op: ArithOp, args: Seq<CellView>) -> Result<CellView, LispError> {
    let nums = payloads(args);
    if !all_numbers(args) {
        Err(LispError::NonNumericOperand)
    } else {
        match op {
            ArithOp::Add => number_cell(fold_from(op, nums, 0, 0)),
            ArithOp::Mul => number_cell(fold_from(op, nums, 0, SCALE as int)),
            _ => if nums.len() == 0 {
                Err(LispError::ArityMismatch)
            } else {
                number_cell(fold_from(op, nums, 1, nums[0]))
            },
        }
    }
}

/// A result that leaves the state as it is.
pub open spec fn pure_outcome(st: RuntimeView, r: Result<CellView, LispError>) -> Outcome {
    match r {
        Ok(c) => Ok((st, c)),
        Err(e) => Err((st, e)),
    }
}

// ---------------------------------------------------------------------
// Lists
// ---------------------------------------------------------------------
/// `list`: a new list of the arguments.
pub open spec fn list_spec(st: RuntimeView, args: Seq<CellView>) -> Outcome {
    Ok((st.with_list(args), CellView::List(st.next_list())))
}

/// A new empty list.
pub open spec fn null_spec(st: RuntimeView) -> Outcome {
    Ok((st.with_list(Seq::<CellView>::empty()), CellView::List(st.next_list())))
}

/// `push`: the first argument goes to the end of the chain of the second,
/// which is returned.
pub open spec fn push_spec(st: RuntimeView, args: Seq<CellView>) -> Outcome {
    if args.len() != 2 {
        Err((st, LispError::ArityMismatch))
    } else {
        match args[1] {
            CellView::List(l) => if l.chain < st.lists.len() {
                Ok((st.append(l.chain as int, args[0]), args[1]))
            } else {
                Err((st, LispError::NotAList))
            },
            _ => Err((st, LispError::NotAList)),
        }
    }
}

/// `car`: the first cell of a list, or a new empty list if it has none.
pub open spec fn car_spec(st: RuntimeView, args: Seq<CellView>) -> Outcome {
    if args.len() != 1 {
        Err((st, LispError::ArityMismatch))
    } else {
        match args[0] {
            CellView::List(l) => if st.items(l).len() == 0 {
                null_spec(st)
            } else {
                Ok((st, st.items(l)[0]))
            },
            _ => Err((st, LispError::NotAList)),
        }
    }
}

/// `cdr`: the list from the second node on, which shares the chain, or a
/// new empty list if there is no second node.
pub open spec fn cdr_spec(st: RuntimeView, args: Seq<CellView>) -> Outcome {
    if args.len() != 1 {
        Err((st, LispError::ArityMismatch))
    } else {
        match args[0] {
            CellView::List(l) => if st.items(l).len() >= 2 {
                Ok((st, CellView::List(LispList { chain: l.chain, start: (l.start + 1) as usize })))
            } else {
                null_spec(st)
            },
            _ => Err((st, LispError::NotAList)),
        }
    }
}

// ---------------------------------------------------------------------
// Equality
// ---------------------------------------------------------------------
/// How many quotes stand in front of a cell.
pub open spec fn quote_depth(c: CellView) -> nat
    decreases c,
{
    match c {
        CellView::Quoted(inner) => 1 + quote_depth(*inner),
        _ => 0,
    }
}

/// Whether two cells are equal in structure: the same kind and equal
/// contents, lists cell by cell, functions by name alone. Each level of
/// lists costs one unit of `depth`.
pub open spec fn same(st: RuntimeView, a: CellView, b: CellView, depth: nat) -> Result<
    bool,
    LispError,
>
    decreases depth, 0nat, quote_depth(a),
{
    match (a, b) {
        (CellView::Atom(x), CellView::Atom(y)) => Ok(x == y),
        (CellView::Number(x), CellView::Number(y)) => Ok(x == y),
        (CellView::Bool(x), CellView::Bool(y)) => Ok(x == y),
        (CellView::Str(x), CellView::Str(y)) => Ok(x == y),
        (CellView::Quoted(x), CellView::Quoted(y)) => same(st, *x, *y, depth),
        (CellView::Func(f), CellView::Func(g)) => Ok(f.name == g.name),
        (CellView::List(l), CellView::List(m)) => if depth == 0 {
            Err(LispError::DepthExceeded)
        } else if st.items(l).len() != st.items(m).len() {
            Ok(false)
        } else {
            same_from(st, st.items(l), st.items(m), 0, (depth - 1) as nat)
        },
        _ => Ok(false),
    }
}

/// Whether `xs[i..]` and `ys[i..]` are equal cell by cell; the first
/// difference or error decides.
pub open spec fn same_from(
    st: RuntimeView,
    xs: Seq<CellView>,
    ys: Seq<CellView>,
    i: nat,
    depth: nat,
) -> Result<bool, LispError>
    decreases depth, 1nat, xs.len() - i,
{
    if i >= xs.len() || i >= ys.len() {
        Ok(true)
    } else {
        match same(st, xs[i as int], ys[i as int], depth) {
            Err(e) => Err(e),
            Ok(false) => Ok(false),
            Ok(true) => same_from(st, xs, ys, i + 1, depth),
        }
    }
}

/// `eq`: whether the two arguments are equal in structure.
pub open spec fn eq_spec(st: RuntimeView, args: Seq<CellView>, depth: nat) -> Outcome {
    if args.len() != 2 {
        Err((st, LispError::ArityMismatch))
    } else {
        match same(st, args[0], args[1], depth) {
            Ok(b) => Ok((st, CellView::Bool(b))),
            Err(e) => Err((st, e)),
        }
    }
}

// ---------------------------------------------------------------------
// Special forms
// ---------------------------------------------------------------------
/// `def`: binds the atom that is the first argument to the value of the
/// second, in the current scope, and returns the atom.
pub open spec fn def_spec(st: RuntimeView, scope: Scope, args: Seq<CellView>, depth: nat) -> Outcome
    decreases depth, 2nat, 0nat,
{
    if args.len() == 0 {
        Err((st, LispError::ArityMismatch))
    } else {
        match args[0] {
            CellView::Atom(name) => if args.len() < 2 {
                Err((st, LispError::ArityMismatch))
            } else {
                match eval(st, scope, args[1], depth) {
                    Err(e) => Err(e),
                    Ok((st1, v)) => Ok((st1.bind(scope, name, v), args[0])),
                }
            },
            _ => Err((st, LispError::TypeMismatch)),
        }
    }
}

/// Evaluates `args[i..]` in order and gives the value of the last.
pub open spec fn eval_last(
    st: RuntimeView,
    scope: Scope,
    args: Seq<CellView>,
    i: nat,
    depth: nat,
) -> Outcome
    decreases depth, 1nat, args.len() - i,
{
    if i >= args.len() {
        Err((st, LispError::ArityMismatch))
    } else {
        match eval(st, scope, args[i as int], depth) {
            Err(e) => Err(e),
            Ok((st1, v)) => if i + 1 == args.len() {
                Ok((st1, v))
            } else {
                eval_last(st1, scope, args, i + 1, depth)
            },
        }
    }
}

/// `do`: evaluates its arguments in order and gives the value of the
/// last; it needs at least one.
pub open spec fn dew_spec(st: RuntimeView, scope: Scope, args: Seq<CellView>, depth: nat) -> Outcome
    decreases depth, 2nat, 0nat,
{
    eval_last(st, scope, args, 0, depth)
}

/// `if`: evaluates the predicate, which must give a boolean, and then the
/// second or the third argument, never both.
pub open spec fn iff_spec(st: RuntimeView, scope: Scope, args: Seq<CellView>, depth: nat) -> Outcome
    decreases depth, 2nat, 0nat,
{
    if args.len() != 3 {
        Err((st, LispError::ArityMismatch))
    } else {
        match eval(st, scope, args[0], depth) {
            Err(e) => Err(e),
            Ok((st1, CellView::Bool(true))) => eval(st1, scope, args[1], depth),
            Ok((st1, CellView::Bool(false))) => eval(st1, scope, args[2], depth),
            Ok((st1, _)) => Err((st1, LispError::TypeMismatch)),
        }
    }
}

/// Whether every cell is an atom.
pub open spec fn all_atoms(items: Seq<CellView>) -> bool {
    forall|i: int| 0 <= i < items.len() ==> (#[trigger] items[i]) is Atom
}

/// The names of a sequence of atoms.
pub open spec fn atom_names(items: Seq<CellView>) -> Seq<Seq<char>> {
    Seq::new(items.len(), |i: int| items[i]->Atom_0)
}

/// The parameter names that a cell lists: it must be a list, of atoms.
pub open spec fn param_names(st: RuntimeView, params: CellView) -> Result<
    Seq<Seq<char>>,
    LispError,
> {
    match params {
        CellView::List(l) => if all_atoms(st.items(l)) {
            Ok(atom_names(st.items(l)))
        } else {
            Err(LispError::TypeMismatch)
        },
        _ => Err(LispError::NotAList),
    }
}

/// A function made of parameter names and a body.
pub open spec fn defined_func(
    name: Seq<char>,
    scope: Option<usize>,
    arg_names: Seq<Seq<char>>,
    body: CellView,
) -> CellView {
    CellView::Func(
        FuncView {
            name,
            func_type: LispFuncType::Normal,
            func_executor: ExecutorView::Defined { scope, arg_names, func_body: Box::new(body) },
        },
    )
}

/// `defn`: makes a function of a name, a parameter list and a body, binds
/// the name to it in the current scope, and returns it. The function
/// captures no scope: it runs in the scope of each caller.
pub open spec fn defn_spec(st: RuntimeView, scope: Scope, args: Seq<CellView>) -> Outcome {
    if args.len() != 3 {
        Err((st, LispError::ArityMismatch))
    } else {
        match args[0] {
            CellView::Atom(name) => match param_names(st, args[1]) {
                Err(e) => Err((st, e)),
                Ok(names) => {
                    let f = defined_func(name, None, names, args[2]);
                    Ok((st.bind(scope, name, f), f))
                },
            },
            _ => Err((st, LispError::TypeMismatch)),
        }
    }
}

/// `lambda`: makes a function of a parameter list and a body. It captures
/// a new scope that starts with the bindings of the current one, and runs
/// there whenever it is called.
pub open spec fn lambda_spec(st: RuntimeView, scope: Scope, args: Seq<CellView>) -> Outcome {
    if args.len() != 2 {
        Err((st, LispError::ArityMismatch))
    } else {
        match param_names(st, args[0]) {
            Err(e) => Err((st, e)),
            Ok(names) => Ok(
                (
                    st.fork(scope),
                    defined_func(
                        "lambda"@,
                        Some(st.captured.len() as usize),
                        names,
                        args[1],
                    ),
                ),
            ),
        }
    }
}

// ---------------------------------------------------------------------
// The operations
// ---------------------------------------------------------------------
/// The numbers among the arguments, if all of them are numbers.
fn to_nums(args: &Vec<LispCell>) -> (r: Option<Vec<Number>>)
    ensures
        r is Some == all_numbers(cells_view(args@)),
        r is Some ==> r->0@.len() == args.len() && forall|i: int|
            0 <= i < args.len() ==> (#[trigger] r->0@[i])@ == payloads(cells_view(args@))[i],
{
    let mut out: Vec<Number> = Vec::new();
    let mut i: usize = 0;
    while i < args.len()
        invariant
            i <= args.len(),
            out@.len() == i,
            forall|j: int| 0 <= j < i ==> (#[trigger] cells_view(args@)[j]) is Number,
            forall|j: int| 0 <= j < i ==> (#[trigger] out@[j])@ == payloads(cells_view(args@))[j],
        decreases args.len() - i,
    {
        match &args[i] {
            LispCell::Number(n) => {
                out.push(*n);
            },
            _ => {
                assert(!(cells_view(args@)[i as int] is Number));
                return None;
            },
        }
        i += 1;
    }
    Some(out)
}

/// Applies an arithmetic operator to the arguments.
pub fn arith_op(op: ArithOp, args: &Vec<LispCell>) -> (r: Result<LispCell, LispError>)
    ensures
        cell_result(r) == arith_spec(op, cells_view(args@)),
{
    let nums: Vec<Number> = match to_nums(args) {
        None => {
            return Err(LispError::NonNumericOperand);
        },
        Some(v) => v,
    };
    let ghost ns = payloads(cells_view(args@));
    let mut acc: Number = Number { units: 0 };
    let mut i: usize = 0;
    match op {
        ArithOp::Add => {},
        ArithOp::Mul => {
            acc = Number { units: SCALE };
        },
        _ => {
            if nums.len() == 0 {
                return Err(LispError::ArityMismatch);
            }
            acc = nums[0];
            i = 1;
        },
    }
    let ghost start = i as nat;
    let ghost seed = acc@;
    while i < nums.len()
        invariant
            i <= nums.len(),
            nums@.len() == ns.len(),
            forall|j: int| 0 <= j < nums.len() ==> (#[trigger] nums@[j])@ == ns[j],
            arith_spec(op, cells_view(args@)) == number_cell(fold_from(op, ns, start, seed)),
            fold_from(op, ns, start, seed) == fold_from(op, ns, i as nat, acc@),
        decreases nums.len() - i,
    {
        match Number::apply(op, acc, nums[i]) {
            Err(e) => {
                return Err(e);
            },
            Ok(v) => {
                acc = v;
            },
        }
        i += 1;
    }
    Ok(LispCell::Number(acc))
}

/// `+`: the sum of the arguments.
pub fn add(args: &Vec<LispCell>) -> (r: Result<LispCell, LispError>)
    ensures
        cell_result(r) == arith_spec(ArithOp::Add, cells_view(args@)),
{
    arith_op(ArithOp::Add, args)
}

/// `-`: the first argument less each of the others.
pub fn sub(args: &Vec<LispCell>) -> (r: Result<LispCell, LispError>)
    ensures
        cell_result(r) == arith_spec(ArithOp::Sub, cells_view(args@)),
{
    arith_op(ArithOp::Sub, args)
}

/// `*`: the product of the arguments.
pub fn mul(args: &Vec<LispCell>) -> (r: Result<LispCell, LispError>)
    ensures
        cell_result(r) == arith_spec(ArithOp::Mul, cells_view(args@)),
{
    arith_op(ArithOp::Mul, args)
}

/// `/`: the first argument divided by each of the others.
pub fn div(args: &Vec<LispCell>) -> (r: Result<LispCell, LispError>)
    ensures
        cell_result(r) == arith_spec(ArithOp::Div, cells_view(args@)),
{
    arith_op(ArithOp::Div, args)
}

/// `list`: a new list of the arguments.
pub fn list(rt: &mut Runtime, args: &Vec<LispCell>) -> (r: Result<LispCell, LispError>)
    ensures
        outcome(r, final(rt)@) == list_spec(old(rt)@, cells_view(args@)),
        grows(old(rt)@, final(rt)@),
{
    Ok(LispCell::new_list(rt, clone_cells(args)))
}

/// `push`: puts the first argument at the end of the list that is the
/// second, and returns that list.
pub fn push(rt: &mut Runtime, args: &Vec<LispCell>) -> (r: Result<LispCell, LispError>)
    ensures
        outcome(r, final(rt)@) == push_spec(old(rt)@, cells_view(args@)),
        grows(old(rt)@, final(rt)@),
{
    if args.len() != 2 {
        return Err(LispError::ArityMismatch);
    }
    match &args[1] {
        LispCell::List(l) => match rt.append(*l, args[0].clone()) {
            Ok(_) => Ok(args[1].clone()),
            Err(e) => Err(e),
        },
        _ => Err(LispError::NotAList),
    }
}

/// `car`: the first cell of a list, or a new empty list if it has none.
pub fn car(rt: &mut Runtime, args: &Vec<LispCell>) -> (r: Result<LispCell, LispError>)
    ensures
        outcome(r, final(rt)@) == car_spec(old(rt)@, cells_view(args@)),
        grows(old(rt)@, final(rt)@),
{
    if args.len() != 1 {
        return Err(LispError::ArityMismatch);
    }
    match &args[0] {
        LispCell::List(l) => if rt.len(*l) == 0 {
            Ok(lisp_null(rt))
        } else {
            Ok(rt.item(*l, 0).clone())
        },
        _ => Err(LispError::NotAList),
    }
}

/// `cdr`: the list from the second node on, or a new empty list if there
/// is no second node.
pub fn cdr(rt: &mut Runtime, args: &Vec<LispCell>) -> (r: Result<LispCell, LispError>)
    ensures
        outcome(r, final(rt)@) == cdr_spec(old(rt)@, cells_view(args@)),
        grows(old(rt)@, final(rt)@),
{
    if args.len() != 1 {
        return Err(LispError::ArityMismatch);
    }
    match &args[0] {
        LispCell::List(l) => match rt.rest(*l) {
            Some(rest) => Ok(LispCell::List(rest)),
            None => Ok(lisp_null(rt)),
        },
        _ => Err(LispError::NotAList),
    }
}

/// Whether two cells are equal in structure.
pub fn same_cells(rt: &Runtime, a: &LispCell, b: &LispCell, depth: usize) -> (r: Result<
    bool,
    LispError,
>)
    ensures
        r == same(rt@, a@, b@, depth as nat),
    decreases depth, 0nat, quote_depth(a@),
{
    match a {
        LispCell::Atom(x) => match b {
            LispCell::Atom(y) => Ok(*x == *y),
            _ => Ok(false),
        },
        LispCell::Number(x) => match b {
            LispCell::Number(y) => Ok(x.units == y.units),
            _ => Ok(false),
        },
        LispCell::Bool(x) => match b {
            LispCell::Bool(y) => Ok(*x == *y),
            _ => Ok(false),
        },
        LispCell::Str(x) => match b {
            LispCell::Str(y) => Ok(*x == *y),
            _ => Ok(false),
        },
        LispCell::Quoted(x) => match b {
            LispCell::Quoted(y) => same_cells(rt, &**x, &**y, depth),
            _ => Ok(false),
        },
        LispCell::Func(f) => match b {
            LispCell::Func(g) => {
                assert(f@.name == f.name@ && g@.name == g.name@);
                Ok(f.name == g.name)
            },
            _ => Ok(false),
        },
        LispCell::List(l) => match b {
            LispCell::List(m) => {
                if depth == 0 {
                    return Err(LispError::DepthExceeded);
                }
                let n: usize = rt.len(*l);
                if n != rt.len(*m) {
                    return Ok(false);
                }
                let ghost xs = rt@.items(*l);
                let ghost ys = rt@.items(*m);
                let mut i: usize = 0;
                while i < n
                    invariant
                        i <= n,
                        n == xs.len(),
                        n == ys.len(),
                        xs == rt@.items(*l),
                        ys == rt@.items(*m),
                        a@ == CellView::List(*l),
                        b@ == CellView::List(*m),
                        depth > 0,
                        same_from(rt@, xs, ys, 0, (depth - 1) as nat) == same_from(
                            rt@,
                            xs,
                            ys,
                            i as nat,
                            (depth - 1) as nat,
                        ),
                    decreases n - i,
                {
                    match same_cells(rt, rt.item(*l, i), rt.item(*m, i), depth - 1) {
                        Err(e) => {
                            return Err(e);
                        },
                        Ok(false) => {
                            return Ok(false);
                        },
                        Ok(true) => {},
                    }
                    i += 1;
                }
                Ok(true)
            },
            _ => Ok(false),
        },
    }
}

/// `eq`: whether the two arguments are equal in structure.
pub fn eq(rt: &Runtime, args: &Vec<LispCell>, depth: usize) -> (r: Result<LispCell, LispError>)
    ensures
        outcome(r, rt@) == eq_spec(rt@, cells_view(args@), depth as nat),
{
    if args.len() != 2 {
        return Err(LispError::ArityMismatch);
    }
    match same_cells(rt, &args[0], &args[1], depth) {
        Ok(b) => Ok(LispCell::Bool(b)),
        Err(e) => Err(e),
    }
}

/// The parameter names that a cell lists.
fn param_list(rt: &Runtime, params: &LispCell) -> (r: Result<Vec<String>, LispError>)
    ensures
        match r {
            Ok(v) => param_names(rt@, params@) == Ok::<Seq<Seq<char>>, LispError>(names_view(v@)),
            Err(e) => param_names(rt@, params@) == Err::<Seq<Seq<char>>, LispError>(e),
        },
{
    match params {
        LispCell::List(l) => {
            let n: usize = rt.len(*l);
            let ghost items = rt@.items(*l);
            let mut out: Vec<String> = Vec::new();
            let mut i: usize = 0;
            while i < n
                invariant
                    i <= n,
                    n == items.len(),
                    items == rt@.items(*l),
                    params@ == CellView::List(*l),
                    out@.len() == i,
                    forall|j: int| 0 <= j < i ==> (#[trigger] items[j]) is Atom,
                    forall|j: int| 0 <= j < i ==> (#[trigger] out@[j])@ == items[j]->Atom_0,
                decreases n - i,
            {
                match rt.item(*l, i) {
                    LispCell::Atom(name) => {
                        out.push(name.clone());
                    },
                    _ => {
                        return Err(LispError::TypeMismatch);
                    },
                }
                i += 1;
            }
            assert(names_view(out@) =~= atom_names(items));
            Ok(out)
        },
        _ => Err(LispError::NotAList),
    }
}

/// `defn`: makes a function of a name, a parameter list and a body, binds
/// the name to it in the current scope, and returns it.
pub fn defn(rt: &mut Runtime, scope: Scope, args: &Vec<LispCell>) -> (r: Result<
    LispCell,
    LispError,
>)
    requires
        old(rt)@.has_scope(scope),
    ensures
        outcome(r, final(rt)@) == defn_spec(old(rt)@, scope, cells_view(args@)),
        grows(old(rt)@, final(rt)@),
{
    if args.len() != 3 {
        return Err(LispError::ArityMismatch);
    }
    match &args[0] {
        LispCell::Atom(name) => {
            let names: Vec<String> = match param_list(rt, &args[1]) {
                Err(e) => {
                    return Err(e);
                },
                Ok(v) => v,
            };
            let func = LispCell::Func(
                LispFunc::new(
                    name.clone(),
                    LispFuncType::Normal,
                    LispFuncExecutor::Defined {
                        scope: None,
                        arg_names: names,
                        func_body: Box::new(args[2].clone()),
                    },
                ),
            );
            rt.bind(scope, name.clone(), func.clone());
            Ok(func)
        },
        _ => Err(LispError::TypeMismatch),
    }
}

/// `lambda`: makes a function of a parameter list and a body, which
/// captures a new scope that starts with the bindings of the current one.
pub fn lambda(rt: &mut Runtime, scope: Scope, args: &Vec<LispCell>) -> (r: Result<
    LispCell,
    LispError,
>)
    requires
        old(rt)@.has_scope(scope),
    ensures
        outcome(r, final(rt)@) == lambda_spec(old(rt)@, scope, cells_view(args@)),
        grows(old(rt)@, final(rt)@),
{
    if args.len() != 2 {
        return Err(LispError::ArityMismatch);
    }
    let names: Vec<String> = match param_list(rt, &args[0]) {
        Err(e) => {
            return Err(e);
        },
        Ok(v) => v,
    };
    let child: usize = rt.fork(scope);
    Ok(
        LispCell::Func(
            LispFunc::new(
                String::from_str("lambda"),
                LispFuncType::Normal,
                LispFuncExecutor::Defined {
                    scope: Some(child),
                    arg_names: names,
                    func_body: Box::new(args[1].clone()),
                },
            ),
        ),
    )
}

/// `def`: binds the atom that is the first argument to the value of the
/// second, in the current scope, and returns the atom.
pub fn def(rt: &mut Runtime, scope: Scope, args: &Vec<LispCell>, depth: usize) -> (r: Result<
    LispCell,
    LispError,
>)
    requires
        old(rt)@.has_scope(scope),
    ensures
        outcome(r, final(rt)@) == def_spec(old(rt)@, scope, cells_view(args@), depth as nat),
        grows(old(rt)@, final(rt)@),
    decreases depth, 2nat, 0nat,
{
    if args.len() == 0 {
        return Err(LispError::ArityMismatch);
    }
    match &args[0] {
        LispCell::Atom(symbol) => {
            if args.len() < 2 {
                return Err(LispError::ArityMismatch);
            }
            let value: LispCell = match exec_rec(rt, scope, &args[1], depth) {
                Err(e) => {
                    return Err(e);
                },
                Ok(v) => v,
            };
            rt.bind(scope, symbol.clone(), value);
            Ok(args[0].clone())
        },
        _ => Err(LispError::TypeMismatch),
    }
}

/// `do`: evaluates its arguments in order and gives the value of the
/// last.
pub fn dew(rt: &mut Runtime, scope: Scope, args: &Vec<LispCell>, depth: usize) -> (r: Result<
    LispCell,
    LispError,
>)
    requires
        old(rt)@.has_scope(scope),
    ensures
        outcome(r, final(rt)@) == dew_spec(old(rt)@, scope, cells_view(args@), depth as nat),
        grows(old(rt)@, final(rt)@),
    decreases depth, 2nat, 0nat,
{
    let n: usize = args.len();
    if n == 0 {
        return Err(LispError::ArityMismatch);
    }
    let mut i: usize = 0;
    while i + 1 < n
        invariant
            i < n,
            n == args.len(),
            rt@.has_scope(scope),
            grows(old(rt)@, rt@),
            eval_last(old(rt)@, scope, cells_view(args@), 0, depth as nat) == eval_last(
                rt@,
                scope,
                cells_view(args@),
                i as nat,
                depth as nat,
            ),
        decreases n - i,
    {
        match exec_rec(rt, scope, &args[i], depth) {
            Err(e) => {
                return Err(e);
            },
            Ok(_) => {},
        }
        i += 1;
    }
    exec_rec(rt, scope, &args[i], depth)
}

/// `if`: evaluates the predicate, which must give a boolean, and then the
/// second or the third argument.
pub fn iff(rt: &mut Runtime, scope: Scope, args: &Vec<LispCell>, depth: usize) -> (r: Result<
    LispCell,
    LispError,
>)
    requires
        old(rt)@.has_scope(scope),
    ensures
        outcome(r, final(rt)@) == iff_spec(old(rt)@, scope, cells_view(args@), depth as nat),
        grows(old(rt)@, final(rt)@),
    decreases depth, 2nat, 0nat,
{
    if args.len() != 3 {
        return Err(LispError::ArityMismatch);
    }
    match exec_rec(rt, scope, &args[0], depth) {
        Err(e) => Err(e),
        Ok(LispCell::Bool(true)) => exec_rec(rt, scope, &args[1], depth),
        Ok(LispCell::Bool(false)) => exec_rec(rt, scope, &args[2], depth),
        Ok(_) => Err(LispError::TypeMismatch),
    }
}

} // verus!
