//! Programs as the reader gives them.

use crate::lisp_cell::{CellView, LispCell};
use vstd::prelude::*;

verus! {

/// A program as the reader gives it: its text, trimmed, and the cell to
/// evaluate, if the text holds one.
#[derive(Debug)]
pub struct LispProgram {
    pub text: String,
    pub entry: Option<LispCell>,
}

/// The model of a `LispProgram`.
pub struct ProgramView {
    pub text: Seq<char>,
    pub entry: Option<CellView>,
}

impl View for LispProgram {
    type V = ProgramView;

    open spec fn view(&self) -> ProgramView {
        ProgramView {
            text: self.text@,
            entry: match self.entry {
                Some(c) => Some(c@),
                None => None,
            },
        }
    }
}

} // verus!
