//! What holds of evaluation, equality and arithmetic, whatever the state
//! and the arguments.

use crate::error::LispError;
use crate::exec::{eval, Failure};
use crate::lisp_cell::CellView;
use crate::lisp_list::LispList;
use crate::number::{fits, ArithOp};
use crate::ops::{
    all_numbers, arith_spec, car_spec, cdr_spec, fold_from, null_spec, payloads, push_spec,
    quote_depth, same, same_from,
};
use crate::runtime::{RuntimeView, Scope};
use crate::syntax::extends;
use vstd::prelude::*;

verus! {

// ---------------------------------------------------------------------
// Evaluation
// ---------------------------------------------------------------------
/// Looking up a symbol that the scope does not bind fails with
/// `UnboundSymbol`, whatever else the state holds.
pub proof fn law_unbound_symbol(st: RuntimeView, scope: Scope, name: Seq<char>, depth: nat)
    requires
        depth > 0,
        st.lookup(scope, name) is None,
    ensures
        eval(st, scope, CellView::Atom(name), depth) == Err::<(RuntimeView, CellView), Failure>(
            (st, LispError::UnboundSymbol),
        ),
{
}

/// A symbol evaluates to what the scope binds it to, and the state stays
/// as it is.
pub proof fn law_bound_symbol(st: RuntimeView, scope: Scope, name: Seq<char>, depth: nat)
    requires
        depth > 0,
        st.lookup(scope, name) is Some,
    ensures
        eval(st, scope, CellView::Atom(name), depth) == Ok::<(RuntimeView, CellView), Failure>(
            (st, st.lookup(scope, name)->0),
        ),
{
}

/// After a name has been bound in a scope, looking it up there gives the
/// cell, and every other name and scope gives what it gave before.
pub proof fn law_bind_lookup(
    st: RuntimeView,
    scope: Scope,
    name: Seq<char>,
    cell: CellView,
    other_scope: Scope,
    other: Seq<char>,
)
    requires
        st.has_scope(scope),
    ensures
        st.bind(scope, name, cell).lookup(scope, name) == Some(cell),
        other_scope != scope || other != name ==> st.bind(scope, name, cell).lookup(
            other_scope,
            other,
        ) == st.lookup(other_scope, other),
{
}

/// Numbers, strings and booleans evaluate to themselves, a quoted cell to
/// the cell behind the quote, one layer only; the state stays as it is.
pub proof fn law_self_evaluating(st: RuntimeView, scope: Scope, cell: CellView, depth: nat)
    requires
        depth > 0,
    ensures
        cell is Number || cell is Str || cell is Bool ==> eval(st, scope, cell, depth) == Ok::<
            (RuntimeView, CellView),
            Failure,
        >((st, cell)),
        eval(st, scope, CellView::Quoted(Box::new(cell)), depth) == Ok::<
            (RuntimeView, CellView),
            Failure,
        >((st, cell)),
{
}

/// `car` and `cdr` of an empty list give a new empty list, not an error,
/// and leave every list that was there as it was.
pub proof fn law_car_cdr_empty(st: RuntimeView, l: LispList)
    requires
        st.items(l).len() == 0,
        st.lists.len() < usize::MAX,
    ensures
        car_spec(st, seq![CellView::List(l)]) == null_spec(st),
        cdr_spec(st, seq![CellView::List(l)]) == null_spec(st),
        null_spec(st) is Ok,
        null_spec(st)->Ok_0.1 is List,
        null_spec(st)->Ok_0.0.items(null_spec(st)->Ok_0.1->List_0).len() == 0,
        extends(st, null_spec(st)->Ok_0.0),
{
}

/// A cell that is pushed onto a list is seen through every handle to the
/// chain of that list: each list on the chain grows by the cell at its
/// end, and the lists of other chains stay as they were.
pub proof fn law_push_shared(st: RuntimeView, value: CellView, l: LispList, other: LispList)
    requires
        st.has_list(l),
        st.has_list(other),
    ensures
        push_spec(st, seq![value, CellView::List(l)]) is Ok,
        push_spec(st, seq![value, CellView::List(l)])->Ok_0.1 == CellView::List(l),
        other.chain == l.chain ==> push_spec(st, seq![value, CellView::List(l)])->Ok_0.0.items(
            other,
        ) == st.items(other).push(value),
        other.chain != l.chain ==> push_spec(st, seq![value, CellView::List(l)])->Ok_0.0.items(
            other,
        ) == st.items(other),
{
}

/// The first cell of a list is what `car` gives, and `cdr` gives the list
/// of the others, on the same chain.
pub proof fn law_car_cdr(st: RuntimeView, l: LispList)
    requires
        st.items(l).len() >= 2,
        st.lists[l.chain as int].len() <= usize::MAX,
    ensures
        car_spec(st, seq![CellView::List(l)]) == Ok::<(RuntimeView, CellView), Failure>(
            (st, st.items(l)[0]),
        ),
        cdr_spec(st, seq![CellView::List(l)]) is Ok,
        cdr_spec(st, seq![CellView::List(l)])->Ok_0.0 == st,
        cdr_spec(st, seq![CellView::List(l)])->Ok_0.1 is List,
        st.items(cdr_spec(st, seq![CellView::List(l)])->Ok_0.1->List_0) == st.items(l).skip(1),
{
}

// ---------------------------------------------------------------------
// Equality
// ---------------------------------------------------------------------
/// Structural equality does not depend on the order of its two sides.
pub proof fn law_same_symmetric(st: RuntimeView, a: CellView, b: CellView, depth: nat)
    ensures
        same(st, a, b, depth) == same(st, b, a, depth),
    decreases depth, 0nat, quote_depth(a),
{
    match (a, b) {
        (CellView::Quoted(x), CellView::Quoted(y)) => {
            law_same_symmetric(st, *x, *y, depth);
        },
        (CellView::List(l), CellView::List(m)) => {
            if depth > 0 && st.items(l).len() == st.items(m).len() {
                lemma_same_from_symmetric(st, st.items(l), st.items(m), 0, (depth - 1) as nat);
            }
        },
        _ => {},
    }
}

proof fn lemma_same_from_symmetric(
    st: RuntimeView,
    xs: Seq<CellView>,
    ys: Seq<CellView>,
    i: nat,
    depth: nat,
)
    requires
        xs.len() == ys.len(),
    ensures
        same_from(st, xs, ys, i, depth) == same_from(st, ys, xs, i, depth),
    decreases depth, 1nat, xs.len() - i,
{
    if i < xs.len() {
        law_same_symmetric(st, xs[i as int], ys[i as int], depth);
        lemma_same_from_symmetric(st, xs, ys, i + 1, depth);
    }
}

/// A cell is equal in structure to itself, wherever the depth budget lets
/// the comparison end.
pub proof fn law_same_reflexive(st: RuntimeView, a: CellView, depth: nat)
    ensures
        same(st, a, a, depth) is Ok ==> same(st, a, a, depth) == Ok::<bool, LispError>(true),
    decreases depth, 0nat, quote_depth(a),
{
    match a {
        CellView::Quoted(x) => {
            law_same_reflexive(st, *x, depth);
        },
        CellView::List(l) => {
            if depth > 0 {
                lemma_same_from_reflexive(st, st.items(l), 0, (depth - 1) as nat);
            }
        },
        _ => {},
    }
}

proof fn lemma_same_from_reflexive(st: RuntimeView, xs: Seq<CellView>, i: nat, depth: nat)
    ensures
        same_from(st, xs, xs, i, depth) is Ok ==> same_from(st, xs, xs, i, depth) == Ok::<
            bool,
            LispError,
        >(true),
    decreases depth, 1nat, xs.len() - i,
{
    if i < xs.len() {
        law_same_reflexive(st, xs[i as int], depth);
        lemma_same_from_reflexive(st, xs, i + 1, depth);
    }
}

// ---------------------------------------------------------------------
// Arithmetic
// ---------------------------------------------------------------------
/// The sum of the first `i` counts.
pub open spec fn sum_to(nums: Seq<int>, i: nat) -> int
    decreases i,
{
    if i == 0 {
        0
    } else {
        sum_to(nums, (i - 1) as nat) + nums[i - 1]
    }
}

proof fn lemma_fold_sum(nums: Seq<int>, i: nat)
    requires
        i <= nums.len(),
        forall|k: nat| k <= nums.len() ==> fits(#[trigger] sum_to(nums, k)),
    ensures
        fold_from(ArithOp::Add, nums, i, sum_to(nums, i)) == Ok::<int, LispError>(
            sum_to(nums, nums.len()),
        ),
    decreases nums.len() - i,
{
    if i < nums.len() {
        lemma_fold_sum(nums, i + 1);
    }
}

/// `+` gives the sum of its arguments, if every sum on the way from the
/// left can be held.
pub proof fn law_sum(args: Seq<CellView>)
    requires
        all_numbers(args),
        forall|k: nat| k <= args.len() ==> fits(#[trigger] sum_to(payloads(args), k)),
    ensures
        arith_spec(ArithOp::Add, args) == Ok::<CellView, LispError>(
            CellView::Number(sum_to(payloads(args), args.len())),
        ),
{
    lemma_fold_sum(payloads(args), 0);
}

proof fn lemma_fold_difference(nums: Seq<int>, i: nat)
    requires
        1 <= i <= nums.len(),
        forall|k: nat| 1 <= k <= nums.len() ==> fits(#[trigger] (2 * nums[0] - sum_to(nums, k))),
    ensures
        fold_from(ArithOp::Sub, nums, i, 2 * nums[0] - sum_to(nums, i)) == Ok::<int, LispError>(
            2 * nums[0] - sum_to(nums, nums.len()),
        ),
    decreases nums.len() - i,
{
    if i < nums.len() {
        lemma_fold_difference(nums, i + 1);
    }
}

/// `-` gives its first argument less the sum of the others, if every
/// difference on the way from the left can be held.
pub proof fn law_difference(args: Seq<CellView>)
    requires
        all_numbers(args),
        args.len() >= 1,
        forall|k: nat|
            1 <= k <= args.len() ==> fits(
                #[trigger] (2 * payloads(args)[0] - sum_to(payloads(args), k)),
            ),
    ensures
        arith_spec(ArithOp::Sub, args) == Ok::<CellView, LispError>(
            CellView::Number(
                payloads(args)[0] - (sum_to(payloads(args), args.len()) - payloads(args)[0]),
            ),
        ),
{
    let nums = payloads(args);
    assert(sum_to(nums, 1) == nums[0]) by {
        assert(sum_to(nums, 0) == 0);
    }
    lemma_fold_difference(nums, 1);
}

} // verus!
