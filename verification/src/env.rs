//! Scopes: the bindings of names to cells, and the built-in bindings that
//! every new scope holds.

use crate::lisp_cell::{CellView, LispCell};
use crate::lisp_func::{ExecutorView, FuncView, LispFunc, LispFuncExecutor, LispFuncType, NativeOp};
use vstd::prelude::*;

verus! {

/// The bindings of one scope: names and the cells bound to them. Its view
/// is the map from each bound name to its cell.
#[derive(Debug)]
pub struct Environment {
    pub symbols: Vec<(String, LispCell)>,
}

/// The cell of the first entry whose name is `name`.
pub open spec fn assoc_find(entries: Seq<(String, LispCell)>, name: Seq<char>) -> Option<CellView>
    decreases entries.len(),
{
    if entries.len() == 0 {
        None
    } else if entries[0].0@ == name {
        Some(entries[0].1@)
    } else {
        assoc_find(entries.drop_first(), name)
    }
}

impl View for Environment {
    type V = Map<Seq<char>, CellView>;

    open spec fn view(&self) -> Map<Seq<char>, CellView> {
        Map::new(
            |k: Seq<char>| assoc_find(self.symbols@, k) is Some,
            |k: Seq<char>| assoc_find(self.symbols@, k)->0,
        )
    }
}

/// What a map binds to a name, if anything.
pub open spec fn lookup(m: Map<Seq<char>, CellView>, name: Seq<char>) -> Option<CellView> {
    if m.contains_key(name) {
        Some(m[name])
    } else {
        None
    }
}

/// An optional cell, seen as an optional model.
pub open spec fn cell_option(r: Option<LispCell>) -> Option<CellView> {
    match r {
        Some(c) => Some(c@),
        None => None,
    }
}

/// The cell of a built-in operation.
pub open spec fn native_cell(name: Seq<char>, func_type: LispFuncType, op: NativeOp) -> CellView {
    CellView::Func(FuncView { name, func_type, func_executor: ExecutorView::Native(op) })
}

/// The bindings that every new scope starts with.
pub open spec fn builtin_symbols() -> Map<Seq<char>, CellView> {
    Map::<Seq<char>, CellView>::empty().insert(
        "+"@,
        native_cell("+"@, LispFuncType::Normal, NativeOp::Add),
    ).insert("-"@, native_cell("-"@, LispFuncType::Normal, NativeOp::Sub)).insert(
        "*"@,
        native_cell("*"@, LispFuncType::Normal, NativeOp::Mul),
    ).insert("/"@, native_cell("/"@, LispFuncType::Normal, NativeOp::Div)).insert(
        "list"@,
        native_cell("list"@, LispFuncType::Normal, NativeOp::List),
    ).insert("def"@, native_cell("def"@, LispFuncType::SpecialForm, NativeOp::Def)).insert(
        "defn"@,
        native_cell("defn"@, LispFuncType::SpecialForm, NativeOp::Defn),
    ).insert("do"@, native_cell("do"@, LispFuncType::SpecialForm, NativeOp::Do)).insert(
        "push"@,
        native_cell("push"@, LispFuncType::Normal, NativeOp::Push),
    ).insert("car"@, native_cell("car"@, LispFuncType::Normal, NativeOp::Car)).insert(
        "cdr"@,
        native_cell("cdr"@, LispFuncType::Normal, NativeOp::Cdr),
    ).insert("if"@, native_cell("if"@, LispFuncType::SpecialForm, NativeOp::If)).insert(
        "eq"@,
        native_cell("eq"@, LispFuncType::Normal, NativeOp::Eq),
    ).insert("lambda"@, native_cell("lambda"@, LispFuncType::SpecialForm, NativeOp::Lambda))
}

proof fn lemma_assoc_skip(entries: Seq<(String, LispCell)>, name: Seq<char>, i: int)
    requires
        0 <= i <= entries.len(),
        forall|j: int| 0 <= j < i ==> (#[trigger] entries[j]).0@ != name,
    ensures
        assoc_find(entries, name) == assoc_find(entries.skip(i), name),
    decreases i,
{
    if i == 0 {
        assert(entries.skip(0) =~= entries);
    } else {
        let t = entries.drop_first();
        lemma_assoc_skip(t, name, i - 1);
        assert(t.skip(i - 1) =~= entries.skip(i));
    }
}

proof fn lemma_assoc_update(
    entries: Seq<(String, LispCell)>,
    i: int,
    cell: LispCell,
    k: Seq<char>,
)
    requires
        0 <= i < entries.len(),
        forall|j: int| 0 <= j < i ==> (#[trigger] entries[j]).0@ != entries[i].0@,
    ensures
        assoc_find(entries.update(i, (entries[i].0, cell)), k) == if k == entries[i].0@ {
            Some(cell@)
        } else {
            assoc_find(entries, k)
        },
    decreases i,
{
    let updated = entries.update(i, (entries[i].0, cell));
    if i > 0 {
        let t = entries.drop_first();
        lemma_assoc_update(t, i - 1, cell, k);
        assert(updated.drop_first() =~= t.update(i - 1, (t[i - 1].0, cell)));
    } else {
        assert(updated.drop_first() =~= entries.drop_first());
    }
}

proof fn lemma_assoc_push(
    entries: Seq<(String, LispCell)>,
    name: String,
    cell: LispCell,
    k: Seq<char>,
)
    requires
        forall|j: int| 0 <= j < entries.len() ==> (#[trigger] entries[j]).0@ != name@,
    ensures
        assoc_find(entries.push((name, cell)), k) == if k == name@ {
            Some(cell@)
        } else {
            assoc_find(entries, k)
        },
    decreases entries.len(),
{
    let pushed = entries.push((name, cell));
    if entries.len() == 0 {
        assert(pushed.drop_first() =~= entries);
    } else {
        let t = entries.drop_first();
        lemma_assoc_push(t, name, cell, k);
        assert(pushed.drop_first() =~= t.push((name, cell)));
    }
}

proof fn lemma_assoc_same(a: Seq<(String, LispCell)>, b: Seq<(String, LispCell)>, k: Seq<char>)
    requires
        a.len() == b.len(),
        forall|j: int|
            0 <= j < a.len() ==> (#[trigger] a[j]).0@ == b[j].0@ && a[j].1@ == b[j].1@,
    ensures
        assoc_find(a, k) == assoc_find(b, k),
    decreases a.len(),
{
    if a.len() > 0 {
        let ta = a.drop_first();
        let tb = b.drop_first();
        lemma_assoc_same(ta, tb, k);
    }
}

impl Environment {
    /// A scope that binds the built-in operations and nothing else.
    pub fn new() -> (r: Environment)
        ensures
            r@ == builtin_symbols(),
    {
        let mut env = Environment { symbols: Vec::new() };
        env.add_op("+", LispFuncType::Normal, NativeOp::Add);
        env.add_op("-", LispFuncType::Normal, NativeOp::Sub);
        env.add_op("*", LispFuncType::Normal, NativeOp::Mul);
        env.add_op("/", LispFuncType::Normal, NativeOp::Div);
        env.add_op("list", LispFuncType::Normal, NativeOp::List);
        env.add_op("def", LispFuncType::SpecialForm, NativeOp::Def);
        env.add_op("defn", LispFuncType::SpecialForm, NativeOp::Defn);
        env.add_op("do", LispFuncType::SpecialForm, NativeOp::Do);
        env.add_op("push", LispFuncType::Normal, NativeOp::Push);
        env.add_op("car", LispFuncType::Normal, NativeOp::Car);
        env.add_op("cdr", LispFuncType::Normal, NativeOp::Cdr);
        env.add_op("if", LispFuncType::SpecialForm, NativeOp::If);
        env.add_op("eq", LispFuncType::Normal, NativeOp::Eq);
        env.add_op("lambda", LispFuncType::SpecialForm, NativeOp::Lambda);
        env
    }

    fn add_op(&mut self, name: &str, func_type: LispFuncType, op: NativeOp)
        ensures
            final(self)@ == old(self)@.insert(name@, native_cell(name@, func_type, op)),
    {
        let func = LispFunc::new(String::from_str(name), func_type, LispFuncExecutor::Native(op));
        self.def(String::from_str(name), LispCell::Func(func));
    }

    /// The position of the first entry named `name`, or the number of
    /// entries if there is none.
    fn position(&self, name: &String) -> (i: usize)
        ensures
            i <= self.symbols.len(),
            forall|j: int| 0 <= j < i ==> (#[trigger] self.symbols@[j]).0@ != name@,
            i < self.symbols.len() ==> self.symbols@[i as int].0@ == name@,
    {
        let mut i: usize = 0;
        while i < self.symbols.len()
            invariant
                i <= self.symbols.len(),
                forall|j: int| 0 <= j < i ==> (#[trigger] self.symbols@[j]).0@ != name@,
            decreases self.symbols.len() - i,
        {
            if self.symbols[i].0 == *name {
                return i;
            }
            i += 1;
        }
        i
    }

    /// Binds `symbol` to `cell` in this scope, in place of any cell that
    /// the name was bound to before.
    pub fn def(&mut self, symbol: String, cell: LispCell)
        ensures
            final(self)@ == old(self)@.insert(symbol@, cell@),
    {
        let i: usize = self.position(&symbol);
        let ghost before = self.symbols@;
        if i < self.symbols.len() {
            self.symbols[i].1 = cell;
            assert forall|k: Seq<char>| #[trigger]
                assoc_find(self.symbols@, k) == if k == symbol@ {
                    Some(cell@)
                } else {
                    assoc_find(before, k)
                } by {
                lemma_assoc_update(before, i as int, cell, k);
            }
        } else {
            self.symbols.push((symbol, cell));
            assert forall|k: Seq<char>| #[trigger]
                assoc_find(self.symbols@, k) == if k == symbol@ {
                    Some(cell@)
                } else {
                    assoc_find(before, k)
                } by {
                lemma_assoc_push(before, symbol, cell, k);
            }
        }
    }

    /// The cell that `name` is bound to in this scope.
    pub fn get(&self, name: &String) -> (r: Option<&LispCell>)
        ensures
            match r {
                Some(c) => lookup(self@, name@) == Some(c@),
                None => lookup(self@, name@) is None,
            },
    {
        let i: usize = self.position(name);
        proof {
            lemma_assoc_skip(self.symbols@, name@, i as int);
        }
        if i < self.symbols.len() {
            Some(&self.symbols[i].1)
        } else {
            None
        }
    }

    /// A copy of the cell that `name` is bound to in this scope; `None`
    /// if the scope does not bind the name.
    pub fn find_sym(&self, name: &String) -> (r: Option<LispCell>)
        ensures
            cell_option(r) == lookup(self@, name@),
    {
        match self.get(name) {
            Some(c) => Some(c.clone()),
            None => None,
        }
    }

    /// A scope of its own that starts with the bindings of this one.
    /// Later changes to either are not seen by the other.
    pub fn new_child(&self) -> (r: Environment)
        ensures
            r@ == self@,
    {
        self.clone()
    }
}

/// A scope that binds the built-in operations and nothing else.
pub fn new_env() -> (r: Environment)
    ensures
        r@ == builtin_symbols(),
{
    Environment::new()
}

impl Clone for Environment {
    fn clone(&self) -> (r: Self)
        ensures
            r@ == self@,
    {
        let mut symbols: Vec<(String, LispCell)> = Vec::new();
        let mut i: usize = 0;
        while i < self.symbols.len()
            invariant
                i <= self.symbols.len(),
                symbols@.len() == i,
                forall|j: int|
                    0 <= j < i ==> (#[trigger] symbols@[j]).0@ == self.symbols@[j].0@
                        && symbols@[j].1@ == self.symbols@[j].1@,
            decreases self.symbols.len() - i,
        {
            symbols.push((self.symbols[i].0.clone(), self.symbols[i].1.clone()));
            i += 1;
        }
        let r = Environment { symbols };
        assert forall|k: Seq<char>| #[trigger]
            assoc_find(r.symbols@, k) == assoc_find(self.symbols@, k) by {
            lemma_assoc_same(r.symbols@, self.symbols@, k);
        }
        r
    }
}

} // verus!
