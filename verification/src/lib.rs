//! A small Lisp: cells, shared lists, scopes, an evaluator, a reader and a
//! printer.
//!
//! Every value is a [`LispCell`]. Cells are plain values; the lists they
//! point to live in a [`Runtime`], where a push through one handle is seen
//! through every other handle to the same chain. A runtime also holds the
//! scopes: the root, and one for each closure that `lambda` made.
//!
//! [`parse`] reads a program, [`exec_prog`] evaluates it, [`print_cell`]
//! gives the text of the value. Each of them is specified by a function of
//! the runtime's model, [`RuntimeView`], and proved to compute it. An error
//! ends the whole evaluation; the runtime is then as it was when the error
//! arose.
//!
//! Numbers are decimals with six places after the point. Evaluation,
//! printing and comparison nest no deeper than the runtime's depth budget.

pub mod env;
pub mod error;
pub mod exec;
pub mod laws;
pub mod lisp_cell;
pub mod lisp_func;
pub mod lisp_list;
pub mod number;
pub mod ops;
pub mod parse;
pub mod print;
pub mod program;
pub mod runtime;
pub mod service;
pub mod syntax;
pub mod text;
pub mod util;

pub use env::{new_env, Environment};
pub use error::LispError;
pub use exec::{call_fn, exec, exec_prog, exec_rec, exec_ref};
pub use lisp_cell::{lisp_null, CellView, LispCell};
pub use lisp_func::{ExecutorView, FuncView, LispFunc, LispFuncExecutor, LispFuncType, NativeOp};
pub use lisp_list::LispList;
pub use number::{ArithOp, Number, SCALE};
pub use ops::same_cells;
pub use parse::parse;
pub use print::{print, print_cell, print_rec};
pub use program::LispProgram;
pub use runtime::{Runtime, RuntimeView, Scope, DEFAULT_DEPTH};
pub use service::{run_code, SubmitCodeResponse};
pub use util::{log, make_atom, make_bool, make_list, make_num, make_quoted, split_at_head};
