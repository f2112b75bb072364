//! Handles to lists. The cells of a list live in a runtime; a handle
//! names a node, and every handle to a chain sees what is pushed onto it.

use crate::env::cell_option;
use crate::error::LispError;
use crate::lisp_cell::{cells_view, CellView, LispCell};
use crate::runtime::Runtime;
use vstd::prelude::*;

verus! {

/// A handle to a node of a list: the chain that holds the node, and the
/// node's position in it. The list that a handle stands for runs from
/// that node to the end of the chain, so it grows when the chain does.
/// Handles are plain values; the chains live in a `Runtime`.
#[derive(Clone, Copy, Debug, PartialEq, Eq, Structural)]
pub struct LispList {
    pub chain: usize,
    pub start: usize,
}

/// The first of a sequence of cells, if it has one.
pub open spec fn first_of(items: Seq<CellView>) -> Option<CellView> {
    if items.len() == 0 {
        None
    } else {
        Some(items[0])
    }
}

/// The list after the first node, if there is a second node.
pub open spec fn rest_of(items: Seq<CellView>, list: LispList) -> Option<LispList> {
    if items.len() >= 2 {
        Some(LispList { chain: list.chain, start: (list.start + 1) as usize })
    } else {
        None
    }
}

impl LispList {
    /// A new empty list.
    pub fn new(rt: &mut Runtime) -> (l: LispList)
        ensures
            final(rt)@ == old(rt)@.with_list(Seq::<CellView>::empty()),
            l == old(rt)@.next_list(),
    {
        let items: Vec<LispCell> = Vec::new();
        assert(cells_view(items@) =~= Seq::<CellView>::empty());
        LispList::from_vec(rt, items)
    }

    /// A new list of one cell.
    pub fn from_value(rt: &mut Runtime, value: LispCell) -> (l: LispList)
        ensures
            final(rt)@ == old(rt)@.with_list(seq![value@]),
            l == old(rt)@.next_list(),
    {
        let mut items: Vec<LispCell> = Vec::new();
        items.push(value);
        assert(cells_view(items@) =~= seq![value@]);
        LispList::from_vec(rt, items)
    }

    /// A new list of the given cells, in order.
    pub fn from_vec(rt: &mut Runtime, vec: Vec<LispCell>) -> (l: LispList)
        ensures
            final(rt)@ == old(rt)@.with_list(cells_view(vec@)),
            l == old(rt)@.next_list(),
    {
        rt.new_list(vec)
    }

    /// The first cell of a list and the list after it. The first is
    /// `None` for an empty list, the rest is `None` unless the list has
    /// a second node. The rest shares the chain of the list.
    pub fn split(rt: &Runtime, list: LispList) -> (r: (Option<LispCell>, Option<LispList>))
        ensures
            cell_option(r.0) == first_of(rt@.items(list)),
            r.1 == rest_of(rt@.items(list), list),
    {
        (list.get_value(rt), rt.rest(list))
    }

    /// The first cell of the list, if it has one.
    pub fn get_value(&self, rt: &Runtime) -> (r: Option<LispCell>)
        ensures
            cell_option(r) == first_of(rt@.items(*self)),
    {
        if rt.len(*self) == 0 {
            None
        } else {
            Some(rt.item(*self, 0).clone())
        }
    }

    /// The cells of a list, in order.
    pub fn to_vec(rt: &Runtime, list: LispList) -> (r: Vec<LispCell>)
        ensures
            cells_view(r@) == rt@.items(list),
    {
        rt.items(list)
    }

    /// Puts a cell at the end of the chain of this list, so that every
    /// list on the chain grows by it, and gives the handle of the new
    /// last node. Fails with `NotAList` if the chain is not of this
    /// runtime.
    pub fn push_back(&self, rt: &mut Runtime, node: LispCell) -> (r: Result<LispList, LispError>)
        ensures
            self.chain < old(rt)@.lists.len() ==> final(rt)@ == old(rt)@.append(
                self.chain as int,
                node@,
            ) && r == Ok::<LispList, LispError>(
                LispList {
                    chain: self.chain,
                    start: old(rt)@.lists[self.chain as int].len() as usize,
                },
            ),
            self.chain >= old(rt)@.lists.len() ==> final(rt)@ == old(rt)@ && r == Err::<
                LispList,
                LispError,
            >(LispError::NotAList),
    {
        rt.append(*self, node)
    }
}

} // verus!
