//! Canonical text: program text as a tree, its canonical form, and the
//! proof that printing what was read from canonical text gives the text
//! back.

use crate::exec::Failure;
use crate::lisp_cell::CellView;
use crate::number::{
    fits, lemma_dot_index_bounds, lemma_number_text_chars, lemma_number_text_value, number_text,
    number_value, whole_part,
};
use crate::parse::{
    classify, flush, is_delimiter, is_space, is_string_literal, parse_spec, push_expr,
    push_frames, run, scan, start, step, tokens, FrameView, ReaderView, TokenView,
};
use crate::print::{cell_text, items_text, program_text};
use crate::program::ProgramView;
use crate::runtime::RuntimeView;
use vstd::prelude::*;

verus! {

/// A piece of program text as a tree: what the reader makes of canonical
/// text, before its lists are given a place in a runtime.
pub enum Sexp {
    Atom(Seq<char>),
    Number(int),
    Str(Seq<char>),
    Quoted(Box<Sexp>),
    List(Seq<Sexp>),
}

/// The canonical text of a tree.
pub open spec fn render(t: Sexp) -> Seq<char>
    decreases t, 0nat,
{
    match t {
        Sexp::Atom(w) => w,
        Sexp::Number(v) => number_text(v),
        Sexp::Str(x) => seq!['"'] + x + seq!['"'],
        Sexp::Quoted(inner) => seq!['\''] + render(*inner),
        Sexp::List(ts) => seq!['('] + render_items(ts, 0) + seq![')'],
    }
}

/// The canonical texts of `ts[i..]` with one space between them.
pub open spec fn render_items(ts: Seq<Sexp>, i: nat) -> Seq<char>
    decreases ts, ts.len() - i,
{
    if i >= ts.len() {
        Seq::<char>::empty()
    } else if i + 1 == ts.len() {
        render(ts[i as int])
    } else {
        render(ts[i as int]) + seq![' '] + render_items(ts, i + 1)
    }
}

/// Whether no character of a text ends a word.
pub open spec fn no_delimiter(w: Seq<char>) -> bool {
    forall|i: int| 0 <= i < w.len() ==> !is_delimiter(#[trigger] w[i])
}

/// Whether a text reads as one word: it is not empty, holds no white
/// space and no parenthesis, and does not begin with a single quote.
pub open spec fn is_word(w: Seq<char>) -> bool {
    w.len() > 0 && w[0] != '\'' && no_delimiter(w)
}

/// Whether a tree is in canonical form: each atom reads as one word that
/// is neither a number nor a string literal, each number can be held, and
/// no string holds white space or a parenthesis.
pub open spec fn canonical(t: Sexp) -> bool
    decreases t,
{
    match t {
        Sexp::Atom(w) => is_word(w) && number_value(w) is None && !is_string_literal(w),
        Sexp::Number(v) => fits(v),
        Sexp::Str(x) => no_delimiter(x),
        Sexp::Quoted(inner) => canonical(*inner),
        Sexp::List(ts) => forall|i: int| 0 <= i < ts.len() ==> canonical(#[trigger] ts[i]),
    }
}

/// The tokens of the canonical text of a tree.
pub open spec fn token_render(t: Sexp) -> Seq<TokenView>
    decreases t, 0nat,
{
    match t {
        Sexp::Atom(w) => seq![TokenView::Word(CellView::Atom(w))],
        Sexp::Number(v) => seq![TokenView::Word(CellView::Number(v))],
        Sexp::Str(x) => seq![TokenView::Word(CellView::Str(x))],
        Sexp::Quoted(inner) => seq![TokenView::Quote] + token_render(*inner),
        Sexp::List(ts) => seq![TokenView::Open] + token_items(ts, 0) + seq![TokenView::Close],
    }
}

/// The tokens of the canonical texts of `ts[i..]`.
pub open spec fn token_items(ts: Seq<Sexp>, i: nat) -> Seq<TokenView>
    decreases ts, ts.len() - i,
{
    if i >= ts.len() {
        Seq::<TokenView>::empty()
    } else {
        token_render(ts[i as int]) + token_items(ts, i + 1)
    }
}

/// Whether a text is at its end or goes on with a character that ends a
/// word.
pub open spec fn breaks(rest: Seq<char>) -> bool {
    rest.len() == 0 || is_delimiter(rest[0])
}

// ---------------------------------------------------------------------
// The tokens of canonical text
// ---------------------------------------------------------------------
proof fn lemma_scan_chars(w: Seq<char>, rest: Seq<char>, word: Seq<char>)
    requires
        no_delimiter(w),
        word.len() > 0 || w.len() == 0 || w[0] != '\'',
    ensures
        scan(w + rest, word) == scan(rest, word + w),
    decreases w.len(),
{
    if w.len() > 0 {
        let s = w + rest;
        assert(s.drop_first() =~= w.drop_first() + rest);
        lemma_scan_chars(w.drop_first(), rest, word.push(w[0]));
        assert(word.push(w[0]) + w.drop_first() =~= word + w);
    }
}

proof fn lemma_scan_break(rest: Seq<char>, word: Seq<char>)
    requires
        breaks(rest),
    ensures
        scan(rest, word) == flush(word) + scan(rest, Seq::<char>::empty()),
{
}

/// A word that is followed by a break reads as one token.
proof fn lemma_scan_word(w: Seq<char>, rest: Seq<char>)
    requires
        is_word(w),
        breaks(rest),
    ensures
        tokens(w + rest) == seq![TokenView::Word(classify(w))] + tokens(rest),
{
    let none = Seq::<char>::empty();
    lemma_scan_chars(w, rest, none);
    lemma_scan_break(rest, w);
}

/// A word that begins with a double quote is no number.
proof fn lemma_quote_no_number(w: Seq<char>)
    requires
        w.len() > 0,
        w[0] == '"',
    ensures
        number_value(w) is None,
{
    let whole = whole_part(w);
    lemma_dot_index_bounds(w);
    if whole.len() > 0 {
        assert(whole[0] == w[0]);
    }
}

/// The text of a leaf reads as one word, which stands for that leaf.
proof fn lemma_leaf_word(t: Sexp)
    requires
        canonical(t),
        !(t is Quoted),
        !(t is List),
    ensures
        is_word(render(t)),
        token_render(t) == seq![TokenView::Word(classify(render(t)))],
{
    match t {
        Sexp::Atom(w) => {},
        Sexp::Number(v) => {
            lemma_number_text_chars(v);
            lemma_number_text_value(v);
        },
        Sexp::Str(x) => {
            let w = render(t);
            lemma_quote_no_number(w);
            assert(w.subrange(1, w.len() - 1) =~= x);
        },
        _ => {},
    }
}

/// The canonical text of a tree, followed by a break, reads as the tokens
/// of the tree and then those of what follows.
pub proof fn lemma_tokens_render(t: Sexp, rest: Seq<char>)
    requires
        canonical(t),
        breaks(rest),
    ensures
        tokens(render(t) + rest) == token_render(t) + tokens(rest),
    decreases t, 0nat,
{
    match t {
        Sexp::Quoted(inner) => {
            let s = render(t) + rest;
            assert(s.drop_first() =~= render(*inner) + rest);
            lemma_tokens_render(*inner, rest);
        },
        Sexp::List(ts) => {
            let s = render(t) + rest;
            let tail = seq![')'] + rest;
            assert(s[0] == '(');
            assert(s.drop_first() =~= render_items(ts, 0) + tail);
            assert(tail[0] == ')');
            lemma_tokens_items(ts, 0, tail);
            assert(tail.drop_first() =~= rest);
        },
        _ => {
            lemma_leaf_word(t);
            lemma_scan_word(render(t), rest);
        },
    }
}

/// The same for the cells of a list from the `i`-th on.
pub proof fn lemma_tokens_items(ts: Seq<Sexp>, i: nat, rest: Seq<char>)
    requires
        forall|j: int| 0 <= j < ts.len() ==> canonical(#[trigger] ts[j]),
        breaks(rest),
    ensures
        tokens(render_items(ts, i) + rest) == token_items(ts, i) + tokens(rest),
    decreases ts, ts.len() - i,
{
    if i + 1 == ts.len() {
        lemma_tokens_render(ts[i as int], rest);
        assert(token_items(ts, i + 1) =~= Seq::<TokenView>::empty());
    } else if i + 1 < ts.len() {
        let head = render(ts[i as int]);
        let after = render_items(ts, i + 1) + rest;
        let tail = seq![' '] + after;
        assert(render_items(ts, i) + rest =~= head + tail);
        lemma_tokens_render(ts[i as int], tail);
        assert(tail.drop_first() =~= after);
        lemma_tokens_items(ts, i + 1, rest);
    }
}

// ---------------------------------------------------------------------
// Trees in a runtime
// ---------------------------------------------------------------------
/// The cell that stands for a tree, and the state in which its lists
/// have their place: each list of the tree becomes a new list, the inner
/// ones first.
pub open spec fn load(st: RuntimeView, t: Sexp) -> (RuntimeView, CellView)
    decreases t, 0nat,
{
    match t {
        Sexp::Atom(w) => (st, CellView::Atom(w)),
        Sexp::Number(v) => (st, CellView::Number(v)),
        Sexp::Str(x) => (st, CellView::Str(x)),
        Sexp::Quoted(inner) => (load(st, *inner).0, CellView::Quoted(Box::new(load(st, *inner).1))),
        Sexp::List(ts) => {
            let loaded = load_items(st, ts, 0, Seq::<CellView>::empty());
            (loaded.0.with_list(loaded.1), CellView::List(loaded.0.next_list()))
        },
    }
}

/// The cells that stand for `ts[i..]`, added to `acc`.
pub open spec fn load_items(st: RuntimeView, ts: Seq<Sexp>, i: nat, acc: Seq<CellView>) -> (
    RuntimeView,
    Seq<CellView>,
)
    decreases ts, ts.len() - i,
{
    if i >= ts.len() {
        (st, acc)
    } else {
        let first = load(st, ts[i as int]);
        load_items(first.0, ts, i + 1, acc.push(first.1))
    }
}

/// The number of lists in a tree.
pub open spec fn count_lists(t: Sexp) -> nat
    decreases t, 0nat,
{
    match t {
        Sexp::Quoted(inner) => count_lists(*inner),
        Sexp::List(ts) => 1 + count_items(ts, 0),
        _ => 0,
    }
}

/// The number of lists in `ts[i..]`.
pub open spec fn count_items(ts: Seq<Sexp>, i: nat) -> nat
    decreases ts, ts.len() - i,
{
    if i >= ts.len() {
        0
    } else {
        count_lists(ts[i as int]) + count_items(ts, i + 1)
    }
}

/// How deep the lists of a tree nest.
pub open spec fn nesting(t: Sexp) -> nat
    decreases t, 0nat,
{
    match t {
        Sexp::Quoted(inner) => nesting(*inner),
        Sexp::List(ts) => 1 + nesting_items(ts, 0),
        _ => 0,
    }
}

/// How deep the lists of `ts[i..]` nest.
pub open spec fn nesting_items(ts: Seq<Sexp>, i: nat) -> nat
    decreases ts, ts.len() - i,
{
    if i >= ts.len() {
        0
    } else if nesting(ts[i as int]) >= nesting_items(ts, i + 1) {
        nesting(ts[i as int])
    } else {
        nesting_items(ts, i + 1)
    }
}

/// Whether a state holds all that an earlier one held, unchanged.
pub open spec fn extends(before: RuntimeView, after: RuntimeView) -> bool {
    &&& before.lists.len() <= after.lists.len()
    &&& forall|k: int| 0 <= k < before.lists.len() ==> after.lists[k] == before.lists[k]
    &&& after.root == before.root
    &&& after.captured == before.captured
    &&& after.max_depth == before.max_depth
}

/// Whether a cell stands for a tree in a state: a leaf by being it, a
/// list by a chain that holds cells which stand for the cells of the
/// tree.
pub open spec fn represents(st: RuntimeView, c: CellView, t: Sexp) -> bool
    decreases t,
{
    match t {
        Sexp::Atom(w) => c == CellView::Atom(w),
        Sexp::Number(v) => c == CellView::Number(v),
        Sexp::Str(x) => c == CellView::Str(x),
        Sexp::Quoted(inner) => c is Quoted && represents(st, *c->Quoted_0, *inner),
        Sexp::List(ts) => {
            &&& c is List
            &&& c->List_0.start == 0
            &&& c->List_0.chain < st.lists.len()
            &&& st.lists[c->List_0.chain as int].len() == ts.len()
            &&& forall|i: int|
                0 <= i < ts.len() ==> represents(
                    st,
                    st.lists[c->List_0.chain as int][i],
                    #[trigger] ts[i],
                )
        },
    }
}

/// What stands for a tree in a state stands for it in every state that
/// extends it.
pub proof fn lemma_represents_extends(st: RuntimeView, later: RuntimeView, c: CellView, t: Sexp)
    requires
        represents(st, c, t),
        extends(st, later),
    ensures
        represents(later, c, t),
    decreases t,
{
    match t {
        Sexp::Quoted(inner) => {
            lemma_represents_extends(st, later, *c->Quoted_0, *inner);
        },
        Sexp::List(ts) => {
            let chain = c->List_0.chain as int;
            assert forall|i: int| 0 <= i < ts.len() implies represents(
                later,
                later.lists[chain][i],
                #[trigger] ts[i],
            ) by {
                lemma_represents_extends(st, later, st.lists[chain][i], ts[i]);
            }
        },
        _ => {},
    }
}

/// The cell that `load` gives stands for the tree, in a state that
/// extends the one before and has one more list for each list of the
/// tree.
pub proof fn lemma_load(st: RuntimeView, t: Sexp)
    requires
        st.lists.len() + count_lists(t) <= usize::MAX,
    ensures
        extends(st, load(st, t).0),
        load(st, t).0.lists.len() == st.lists.len() + count_lists(t),
        represents(load(st, t).0, load(st, t).1, t),
    decreases t, 0nat,
{
    match t {
        Sexp::Quoted(inner) => {
            lemma_load(st, *inner);
        },
        Sexp::List(ts) => {
            let none = Seq::<CellView>::empty();
            lemma_load_items(st, ts, 0, none);
            let loaded = load_items(st, ts, 0, none);
            let last = loaded.0.with_list(loaded.1);
            let l = loaded.0.next_list();
            assert forall|i: int| 0 <= i < ts.len() implies represents(
                last,
                last.lists[l.chain as int][i],
                #[trigger] ts[i],
            ) by {
                lemma_represents_extends(loaded.0, last, loaded.1[i], ts[i]);
            }
        },
        _ => {},
    }
}

/// The same for the cells of a list from the `i`-th on.
pub proof fn lemma_load_items(st: RuntimeView, ts: Seq<Sexp>, i: nat, acc: Seq<CellView>)
    requires
        i <= ts.len(),
        st.lists.len() + count_items(ts, i) <= usize::MAX,
    ensures
        extends(st, load_items(st, ts, i, acc).0),
        load_items(st, ts, i, acc).0.lists.len() == st.lists.len() + count_items(ts, i),
        load_items(st, ts, i, acc).1.len() == acc.len() + ts.len() - i,
        forall|j: int| 0 <= j < acc.len() ==> load_items(st, ts, i, acc).1[j] == acc[j],
        forall|j: int|
            i <= j < ts.len() ==> represents(
                load_items(st, ts, i, acc).0,
                load_items(st, ts, i, acc).1[acc.len() + j - i],
                #[trigger] ts[j],
            ),
    decreases ts, ts.len() - i,
{
    if i < ts.len() {
        let first = load(st, ts[i as int]);
        lemma_load(st, ts[i as int]);
        let longer = acc.push(first.1);
        lemma_load_items(first.0, ts, i + 1, longer);
        let all = load_items(st, ts, i, acc);
        assert forall|j: int| 0 <= j < acc.len() implies all.1[j] == acc[j] by {
            assert(longer[j] == acc[j]);
        }
        assert forall|j: int| i <= j < ts.len() implies represents(
            all.0,
            all.1[acc.len() + j - i],
            #[trigger] ts[j],
        ) by {
            if j == i {
                assert(all.1[acc.len() as int] == longer[acc.len() as int]);
                lemma_represents_extends(first.0, all.0, first.1, ts[j]);
            }
        }
    }
}

// ---------------------------------------------------------------------
// Reading the tokens of a tree
// ---------------------------------------------------------------------
/// The `n` tokens from the `i`-th on.
pub open spec fn window(toks: Seq<TokenView>, i: nat, n: nat) -> Seq<TokenView> {
    toks.subrange(i as int, (i + n) as int)
}

/// The reader's state with another runtime state.
pub open spec fn at_state(r: ReaderView, st: RuntimeView) -> ReaderView {
    ReaderView { st, frames: r.frames }
}

/// Reading the tokens of a tree adds the cell of the tree to the
/// innermost open list.
pub proof fn lemma_run_tree(r: ReaderView, toks: Seq<TokenView>, i: nat, t: Sexp)
    requires
        r.frames.len() >= 1,
        i + token_render(t).len() <= toks.len(),
        window(toks, i, token_render(t).len()) == token_render(t),
    ensures
        run(r, toks, i) == run(
            push_expr(at_state(r, load(r.st, t).0), load(r.st, t).1),
            toks,
            i + token_render(t).len(),
        ),
    decreases t, 0nat,
{
    let tr = token_render(t);
    let n = tr.len();
    assert(toks[i as int] == window(toks, i, n)[0]);
    match t {
        Sexp::Quoted(inner) => {
            let sub = token_render(*inner);
            let r1 = step(r, TokenView::Quote)->Ok_0;
            assert(window(toks, i + 1, sub.len()) =~= sub) by {
                assert forall|k: int| 0 <= k < sub.len() implies toks[i + 1 + k] == sub[k] by {
                    assert(window(toks, i, n)[k + 1] == tr[k + 1]);
                }
            }
            lemma_run_tree(r1, toks, i + 1, *inner);
            let loaded = load(r.st, *inner);
            assert(push_frames(r1.frames, loaded.1) =~= push_frames(r.frames, load(r.st, t).1));
        },
        Sexp::List(ts) => {
            let sub = token_items(ts, 0);
            let none = Seq::<CellView>::empty();
            let r1 = step(r, TokenView::Open)->Ok_0;
            assert(window(toks, i + 1, sub.len()) =~= sub) by {
                assert forall|k: int| 0 <= k < sub.len() implies toks[i + 1 + k] == sub[k] by {
                    assert(window(toks, i, n)[k + 1] == tr[k + 1]);
                }
            }
            lemma_run_items(r1, toks, i + 1, ts, 0, none);
            let loaded = load_items(r.st, ts, 0, none);
            let r2 = ReaderView {
                st: loaded.0,
                frames: r1.frames.update(
                    r1.frames.len() - 1,
                    FrameView { items: loaded.1, quotes: 0 },
                ),
            };
            assert(toks[(i + 1 + sub.len()) as int] == TokenView::Close) by {
                assert(window(toks, i, n)[(1 + sub.len()) as int] == tr[(1 + sub.len()) as int]);
            }
            assert(r2.frames.drop_last() =~= r.frames);
        },
        _ => {},
    }
}

/// The same for the cells of a list from the `k`-th on: they join the
/// cells `acc` that the innermost open list holds already.
pub proof fn lemma_run_items(
    r: ReaderView,
    toks: Seq<TokenView>,
    i: nat,
    ts: Seq<Sexp>,
    k: nat,
    acc: Seq<CellView>,
)
    requires
        r.frames.len() >= 1,
        r.frames.last() == (FrameView { items: acc, quotes: 0 }),
        i + token_items(ts, k).len() <= toks.len(),
        window(toks, i, token_items(ts, k).len()) == token_items(ts, k),
    ensures
        run(r, toks, i) == run(
            ReaderView {
                st: load_items(r.st, ts, k, acc).0,
                frames: r.frames.update(
                    r.frames.len() - 1,
                    FrameView { items: load_items(r.st, ts, k, acc).1, quotes: 0 },
                ),
            },
            toks,
            i + token_items(ts, k).len(),
        ),
    decreases ts, ts.len() - k,
{
    let last = r.frames.len() - 1;
    if k >= ts.len() {
        assert(r.frames.update(last, FrameView { items: acc, quotes: 0 }) =~= r.frames);
    } else {
        let head = token_render(ts[k as int]);
        let tail = token_items(ts, k + 1);
        let all = token_items(ts, k);
        assert(window(toks, i, head.len()) =~= head) by {
            assert forall|j: int| 0 <= j < head.len() implies toks[i + j] == head[j] by {
                assert(window(toks, i, all.len())[j] == all[j]);
            }
        }
        lemma_run_tree(r, toks, i, ts[k as int]);
        let first = load(r.st, ts[k as int]);
        let r1 = push_expr(at_state(r, first.0), first.1);
        let longer = acc.push(first.1);
        assert(window(toks, i + head.len(), tail.len()) =~= tail) by {
            assert forall|j: int| 0 <= j < tail.len() implies toks[i + head.len() + j]
                == tail[j] by {
                assert(window(toks, i, all.len())[head.len() + j] == all[head.len()
                    + j]);
            }
        }
        lemma_run_items(r1, toks, i + head.len(), ts, k + 1, longer);
        let done = load_items(r.st, ts, k, acc);
        assert(r1.frames.update(last, FrameView { items: done.1, quotes: 0 })
            =~= r.frames.update(last, FrameView { items: done.1, quotes: 0 }));
    }
}

// ---------------------------------------------------------------------
// Printing a tree
// ---------------------------------------------------------------------
/// The text of a cell that stands for a tree is the canonical text of the
/// tree, if the depth budget covers the nesting of its lists.
pub proof fn lemma_text_represents(st: RuntimeView, c: CellView, t: Sexp, depth: nat)
    requires
        represents(st, c, t),
        nesting(t) <= depth,
    ensures
        cell_text(st, c, depth) == render(t),
    decreases t, 0nat,
{
    match t {
        Sexp::Quoted(inner) => {
            lemma_text_represents(st, *c->Quoted_0, *inner, depth);
        },
        Sexp::List(ts) => {
            let l = c->List_0;
            let items = st.items(l);
            lemma_text_items(st, items, ts, 0, (depth - 1) as nat);
        },
        _ => {},
    }
}

/// The same for the cells of a list from the `i`-th on.
pub proof fn lemma_text_items(
    st: RuntimeView,
    items: Seq<CellView>,
    ts: Seq<Sexp>,
    i: nat,
    depth: nat,
)
    requires
        items.len() == ts.len(),
        forall|j: int| 0 <= j < ts.len() ==> represents(st, items[j], #[trigger] ts[j]),
        nesting_items(ts, i) <= depth,
    ensures
        items_text(st, items, i, depth) == render_items(ts, i),
    decreases ts, ts.len() - i,
{
    if i < ts.len() {
        lemma_text_represents(st, items[i as int], ts[i as int], depth);
        lemma_text_items(st, items, ts, i + 1, depth);
    }
}

// ---------------------------------------------------------------------
// The law
// ---------------------------------------------------------------------
/// Canonical text is not empty and neither begins nor ends with white
/// space.
pub proof fn lemma_render_edges(t: Sexp)
    requires
        canonical(t),
    ensures
        render(t).len() > 0,
        !is_space(render(t)[0]),
        !is_space(render(t).last()),
    decreases t,
{
    match t {
        Sexp::Quoted(inner) => {
            lemma_render_edges(*inner);
        },
        Sexp::List(_) => {},
        _ => {
            lemma_leaf_word(t);
        },
    }
}

/// Reading the canonical text of a tree gives the cell that stands for
/// the tree, and printing that cell gives the text back: for canonical
/// text `s`, the text of the program read from `s` is `s`. The depth
/// budget must cover the nesting of the lists, and the lists must be
/// countable.
pub proof fn law_print_parse(st: RuntimeView, t: Sexp)
    requires
        canonical(t),
        nesting(t) <= st.max_depth,
        st.lists.len() + count_lists(t) <= usize::MAX,
    ensures
        parse_spec(st, render(t)) == Ok::<(RuntimeView, ProgramView), Failure>(
            (load(st, t).0, ProgramView { text: render(t), entry: Some(load(st, t).1) }),
        ),
        program_text(load(st, t).0, Some(load(st, t).1)) == render(t),
{
    let none = Seq::<char>::empty();
    lemma_render_edges(t);
    lemma_tokens_render(t, none);
    let toks = token_render(t);
    let r = start(st);
    assert(window(toks, 0, toks.len()) =~= toks);
    lemma_run_tree(r, toks, 0, t);
    let loaded = load(st, t);
    lemma_load(st, t);
    lemma_text_represents(loaded.0, loaded.1, t, st.max_depth);
}

} // verus!
