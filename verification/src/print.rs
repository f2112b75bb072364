//! The printer: the text of a cell.

use crate::lisp_cell::{CellView, LispCell};
use crate::number::number_text;
use crate::ops::quote_depth;
use crate::program::LispProgram;
use crate::runtime::{Runtime, RuntimeView};
use crate::text::string_push;
use vstd::prelude::*;

verus! {

/// The text of a cell. An atom prints as its name, a number as its
/// canonical decimal, a boolean as `true` or `false`, a string between
/// double quotes, a quoted cell behind a single quote, a function as `#`
/// and its name, a list as its cells between parentheses with one space
/// between them. Each level of lists costs one unit of `depth`; a list
/// for which none is left prints as three points.
pub open spec fn cell_text(st: RuntimeView, cell: CellView, depth: nat) -> Seq<char>
    decreases depth, 0nat, quote_depth(cell),
{
    match cell {
        CellView::Atom(name) => name,
        CellView::Number(v) => number_text(v),
        CellView::Bool(b) => if b {
            "true"@
        } else {
            "false"@
        },
        CellView::Str(s) => seq!['"'] + s + seq!['"'],
        CellView::Quoted(inner) => seq!['\''] + cell_text(st, *inner, depth),
        CellView::Func(f) => seq!['#'] + f.name,
        CellView::List(l) => if depth == 0 {
            "..."@
        } else {
            seq!['('] + items_text(st, st.items(l), 0, (depth - 1) as nat) + seq![')']
        },
    }
}

/// The texts of `items[i..]` with one space between them.
pub open spec fn items_text(st: RuntimeView, items: Seq<CellView>, i: nat, depth: nat) -> Seq<char>
    decreases depth, 1nat, items.len() - i,
{
    if i >= items.len() {
        Seq::<char>::empty()
    } else if i + 1 == items.len() {
        cell_text(st, items[i as int], depth)
    } else {
        cell_text(st, items[i as int], depth) + seq![' '] + items_text(st, items, i + 1, depth)
    }
}

/// The text of a program: that of its entry, or nothing.
pub open spec fn program_text(st: RuntimeView, entry: Option<CellView>) -> Seq<char> {
    match entry {
        Some(c) => cell_text(st, c, st.max_depth),
        None => Seq::<char>::empty(),
    }
}

/// Appends the text of a cell to `result`.
pub fn print_rec(rt: &Runtime, node: &LispCell, result: &mut String, depth: usize)
    ensures
        final(result)@ == old(result)@ + cell_text(rt@, node@, depth as nat),
    decreases depth, 0nat, quote_depth(node@),
{
    match node {
        LispCell::Func(func) => {
            assert(func@.name == func.name@);
            string_push(result, '#');
            result.append(func.name.as_str());
        },
        LispCell::Quoted(quoted) => {
            string_push(result, '\'');
            print_rec(rt, &**quoted, result, depth);
        },
        LispCell::Number(num) => {
            num.push_text(result);
        },
        LispCell::Atom(atom) => {
            result.append(atom.as_str());
        },
        LispCell::Bool(b) => {
            if *b {
                result.append("true");
            } else {
                result.append("false");
            }
        },
        LispCell::Str(s) => {
            string_push(result, '"');
            result.append(s.as_str());
            string_push(result, '"');
        },
        LispCell::List(list) => {
            if depth == 0 {
                result.append("...");
                return;
            }
            string_push(result, '(');
            let n: usize = rt.len(*list);
            let ghost items = rt@.items(*list);
            let ghost opened = result@;
            let ghost inner = items_text(rt@, items, 0, (depth - 1) as nat);
            let mut i: usize = 0;
            while i < n
                invariant
                    i <= n,
                    n == items.len(),
                    items == rt@.items(*list),
                    depth > 0,
                    result@ + items_text(rt@, items, i as nat, (depth - 1) as nat) == opened
                        + inner,
                decreases n - i,
            {
                print_rec(rt, rt.item(*list, i), result, depth - 1);
                if i != n - 1 {
                    string_push(result, ' ');
                }
                i += 1;
            }
            string_push(result, ')');
        },
    }
}

/// The text of a cell, with the runtime's depth budget.
pub fn print_cell(cell: &LispCell, rt: &Runtime) -> (r: String)
    ensures
        r@ == cell_text(rt@, cell@, rt@.max_depth),
{
    let mut result = String::new();
    print_rec(rt, cell, &mut result, rt.max_depth());
    result
}

/// The text of a program: that of its entry, or nothing.
pub fn print(program: &LispProgram, rt: &Runtime) -> (r: String)
    ensures
        r@ == program_text(rt@, program@.entry),
{
    match &program.entry {
        None => String::new(),
        Some(entry) => print_cell(entry, rt),
    }
}

} // verus!
