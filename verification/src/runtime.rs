//! The state of evaluation: the chains of the lists and the scopes.

use crate::env::{builtin_symbols, cell_option, lookup, Environment};
use crate::error::LispError;
use crate::lisp_cell::{cells_view, CellView, LispCell};
use crate::lisp_list::LispList;
use vstd::prelude::*;

verus! {

/// The depth budget of a runtime made by `Runtime::new`.
pub const DEFAULT_DEPTH: usize = 200;

/// The state that evaluation works on: the chains that lists point into,
/// the root scope, and the scopes that closures captured. Chains and
/// scopes are only ever added, so a handle stays good for as long as its
/// runtime lives.
pub struct Runtime {
    pub(crate) lists: Vec<Vec<LispCell>>,
    pub(crate) root: Environment,
    pub(crate) captured: Vec<Environment>,
    pub(crate) max_depth: usize,
}

/// Names a scope of a runtime: its root, or one that a closure captured.
#[derive(Clone, Copy, Debug, PartialEq, Eq, Structural)]
pub enum Scope {
    Root,
    Captured(usize),
}

/// The model of a `Runtime`.
pub struct RuntimeView {
    /// The chains, each a sequence of cells.
    pub lists: Seq<Seq<CellView>>,
    /// The bindings of the root scope.
    pub root: Map<Seq<char>, CellView>,
    /// The bindings of the captured scopes.
    pub captured: Seq<Map<Seq<char>, CellView>>,
    /// How deep evaluation, reading and printing may nest.
    pub max_depth: nat,
}

impl RuntimeView {
    /// Whether a handle points into a chain of this state.
    pub open spec fn has_list(self, l: LispList) -> bool {
        l.chain < self.lists.len() && l.start <= self.lists[l.chain as int].len()
    }

    /// The cells of a list, in order; none if the handle points nowhere.
    pub open spec fn items(self, l: LispList) -> Seq<CellView> {
        if self.has_list(l) {
            self.lists[l.chain as int].skip(l.start as int)
        } else {
            Seq::<CellView>::empty()
        }
    }

    /// The handle that the next new list gets.
    pub open spec fn next_list(self) -> LispList {
        LispList { chain: self.lists.len() as usize, start: 0 }
    }

    /// The state with one more chain, which holds `items`.
    pub open spec fn with_list(self, items: Seq<CellView>) -> RuntimeView {
        RuntimeView { lists: self.lists.push(items), ..self }
    }

    /// The state in which `cell` stands at the end of a chain.
    pub open spec fn append(self, chain: int, cell: CellView) -> RuntimeView {
        RuntimeView { lists: self.lists.update(chain, self.lists[chain].push(cell)), ..self }
    }

    /// Whether `scope` is a scope of this state.
    pub open spec fn has_scope(self, scope: Scope) -> bool {
        match scope {
            Scope::Root => true,
            Scope::Captured(k) => k < self.captured.len(),
        }
    }

    /// The bindings of a scope.
    pub open spec fn bindings(self, scope: Scope) -> Map<Seq<char>, CellView> {
        match scope {
            Scope::Root => self.root,
            Scope::Captured(k) => self.captured[k as int],
        }
    }

    /// What `name` is bound to in a scope.
    pub open spec fn lookup(self, scope: Scope, name: Seq<char>) -> Option<CellView> {
        if self.has_scope(scope) {
            lookup(self.bindings(scope), name)
        } else {
            None
        }
    }

    /// The state in which a scope binds `name` to `cell`.
    pub open spec fn bind(self, scope: Scope, name: Seq<char>, cell: CellView) -> RuntimeView {
        match scope {
            Scope::Root => RuntimeView { root: self.root.insert(name, cell), ..self },
            Scope::Captured(k) => RuntimeView {
                captured: self.captured.update(
                    k as int,
                    self.captured[k as int].insert(name, cell),
                ),
                ..self
            },
        }
    }

    /// The state with one more captured scope, which starts with the
    /// bindings of `scope`.
    pub open spec fn fork(self, scope: Scope) -> RuntimeView {
        RuntimeView { captured: self.captured.push(self.bindings(scope)), ..self }
    }
}

/// The state of a new runtime: no chains, and a root scope with the
/// built-in operations.
pub open spec fn initial_state(max_depth: nat) -> RuntimeView {
    RuntimeView {
        lists: Seq::<Seq<CellView>>::empty(),
        root: builtin_symbols(),
        captured: Seq::<Map<Seq<char>, CellView>>::empty(),
        max_depth,
    }
}

impl View for Runtime {
    type V = RuntimeView;

    closed spec fn view(&self) -> RuntimeView {
        RuntimeView {
            lists: self.lists@.map_values(|v: Vec<LispCell>| cells_view(v@)),
            root: self.root@,
            captured: self.captured@.map_values(|e: Environment| e@),
            max_depth: self.max_depth as nat,
        }
    }
}

impl Runtime {
    /// A runtime with the default depth budget.
    pub fn new() -> (r: Runtime)
        ensures
            r@ == initial_state(DEFAULT_DEPTH as nat),
    {
        Runtime::with_depth(DEFAULT_DEPTH)
    }

    /// A runtime with a depth budget of its own. Each unit of the budget
    /// is a level of nested calls on the machine's stack, so the budget
    /// should suit the stack that evaluation runs on.
    pub fn with_depth(max_depth: usize) -> (r: Runtime)
        ensures
            r@ == initial_state(max_depth as nat),
    {
        let r = Runtime {
            lists: Vec::new(),
            root: Environment::new(),
            captured: Vec::new(),
            max_depth,
        };
        assert(r@.lists =~= initial_state(max_depth as nat).lists);
        assert(r@.captured =~= initial_state(max_depth as nat).captured);
        r
    }

    /// The depth budget.
    pub fn max_depth(&self) -> (d: usize)
        ensures
            d == self@.max_depth,
    {
        self.max_depth
    }

    /// Whether `scope` is a scope of this runtime.
    pub fn has_scope(&self, scope: Scope) -> (b: bool)
        ensures
            b == self@.has_scope(scope),
    {
        match scope {
            Scope::Root => true,
            Scope::Captured(k) => k < self.captured.len(),
        }
    }

    /// Makes a new list of the given cells.
    pub fn new_list(&mut self, items: Vec<LispCell>) -> (l: LispList)
        ensures
            final(self)@ == old(self)@.with_list(cells_view(items@)),
            l == old(self)@.next_list(),
    {
        let chain: usize = self.lists.len();
        self.lists.push(items);
        assert(final(self)@.lists =~= old(self)@.lists.push(cells_view(items@)));
        LispList { chain, start: 0 }
    }

    /// Whether a handle points into a chain of this runtime.
    pub fn has_list(&self, l: LispList) -> (b: bool)
        ensures
            b == self@.has_list(l),
    {
        l.chain < self.lists.len() && l.start <= self.lists[l.chain].len()
    }

    /// The number of cells of a list.
    pub fn len(&self, l: LispList) -> (n: usize)
        ensures
            n == self@.items(l).len(),
    {
        if self.has_list(l) {
            self.lists[l.chain].len() - l.start
        } else {
            0
        }
    }

    /// The cell at position `i` of a list.
    pub fn item(&self, l: LispList, i: usize) -> (c: &LispCell)
        requires
            i < self@.items(l).len(),
        ensures
            c@ == self@.items(l)[i as int],
    {
        let chain: &Vec<LispCell> = &self.lists[l.chain];
        let n: usize = chain.len();
        &chain[l.start + i]
    }

    /// The list from the second node on, if there is a second node.
    pub fn rest(&self, l: LispList) -> (r: Option<LispList>)
        ensures
            r == if self@.items(l).len() >= 2 {
                Some(LispList { chain: l.chain, start: (l.start + 1) as usize })
            } else {
                None
            },
    {
        if self.len(l) >= 2 {
            let n: usize = self.lists[l.chain].len();
            Some(LispList { chain: l.chain, start: l.start + 1 })
        } else {
            None
        }
    }

    /// Copies of the cells of a list, in order.
    pub fn items(&self, l: LispList) -> (r: Vec<LispCell>)
        ensures
            cells_view(r@) == self@.items(l),
    {
        let n: usize = self.len(l);
        let mut out: Vec<LispCell> = Vec::new();
        let mut i: usize = 0;
        while i < n
            invariant
                n == self@.items(l).len(),
                i <= n,
                out@.len() == i,
                forall|j: int| 0 <= j < i ==> out@[j]@ == self@.items(l)[j],
            decreases n - i,
        {
            out.push(self.item(l, i).clone());
            i += 1;
        }
        out
    }

    /// Puts `cell` at the end of the chain that `l` points into, so that
    /// every list on that chain grows by it, and gives the handle of the
    /// new last node. Fails if the chain is not of this runtime.
    pub fn append(&mut self, l: LispList, cell: LispCell) -> (r: Result<LispList, LispError>)
        ensures
            l.chain < old(self)@.lists.len() ==> final(self)@ == old(self)@.append(
                l.chain as int,
                cell@,
            ) && r == Ok::<LispList, LispError>(
                LispList { chain: l.chain, start: old(self)@.lists[l.chain as int].len() as usize },
            ),
            l.chain >= old(self)@.lists.len() ==> final(self)@ == old(self)@ && r == Err::<
                LispList,
                LispError,
            >(LispError::NotAList),
    {
        if l.chain < self.lists.len() {
            let at: usize = self.lists[l.chain].len();
            self.lists[l.chain].push(cell);
            assert(cells_view(final(self).lists@[l.chain as int]@) =~= cells_view(
                old(self).lists@[l.chain as int]@,
            ).push(cell@));
            assert(final(self)@.lists =~= old(self)@.append(l.chain as int, cell@).lists);
            Ok(LispList { chain: l.chain, start: at })
        } else {
            Err(LispError::NotAList)
        }
    }

    /// A copy of the cell that `name` is bound to in a scope.
    pub fn lookup(&self, scope: Scope, name: &String) -> (r: Option<LispCell>)
        ensures
            cell_option(r) == self@.lookup(scope, name@),
    {
        match scope {
            Scope::Root => self.root.find_sym(name),
            Scope::Captured(k) => if k < self.captured.len() {
                self.captured[k].find_sym(name)
            } else {
                None
            },
        }
    }

    /// Binds `name` to `cell` in a scope.
    pub fn bind(&mut self, scope: Scope, name: String, cell: LispCell)
        requires
            old(self)@.has_scope(scope),
        ensures
            final(self)@ == old(self)@.bind(scope, name@, cell@),
    {
        match scope {
            Scope::Root => {
                self.root.def(name, cell);
            },
            Scope::Captured(k) => {
                self.captured[k].def(name, cell);
                assert(final(self)@.captured =~= old(self)@.bind(scope, name@, cell@).captured);
            },
        }
    }

    /// Adds a captured scope that starts with the bindings of `scope`,
    /// and gives its number.
    pub fn fork(&mut self, scope: Scope) -> (child: usize)
        requires
            old(self)@.has_scope(scope),
        ensures
            final(self)@ == old(self)@.fork(scope),
            child == old(self)@.captured.len(),
    {
        let child: usize = self.captured.len();
        let copy = match scope {
            Scope::Root => self.root.new_child(),
            Scope::Captured(k) => self.captured[k].new_child(),
        };
        self.captured.push(copy);
        assert(final(self)@.captured =~= old(self)@.fork(scope).captured);
        child
    }
}

/// Whether a state has the scopes of an earlier one, and its budget.
pub open spec fn grows(before: RuntimeView, after: RuntimeView) -> bool {
    after.captured.len() >= before.captured.len() && after.max_depth == before.max_depth
}

} // verus!
