//! Running code on request: read, evaluate, print, and answer with a
//! value or a diagnostic.

use crate::error::{error_text, LispError};
use crate::exec::{eval, exec_prog};
use crate::parse::{parse, parse_spec};
use crate::print::{cell_text, print_cell};
use crate::runtime::{initial_state, Runtime, Scope, DEFAULT_DEPTH};
use vstd::prelude::*;

verus! {

/// The answer to a request to run code: what the code printed as its
/// value, or a diagnostic, and whether it ran to its end.
#[derive(Debug)]
pub struct SubmitCodeResponse {
    pub output: String,
    pub success: bool,
}

/// The model of a `SubmitCodeResponse`.
pub struct ResponseView {
    pub output: Seq<char>,
    pub success: bool,
}

impl View for SubmitCodeResponse {
    type V = ResponseView;

    open spec fn view(&self) -> ResponseView {
        ResponseView { output: self.output@, success: self.success }
    }
}

/// The answer for an error.
pub open spec fn failure(e: LispError) -> ResponseView {
    ResponseView { output: error_text(e), success: false }
}

/// The answer to a request: the code is read and evaluated in a runtime
/// of its own, and the value is printed. Any error, and a text that holds
/// no program, gives an answer without success.
pub open spec fn run_code_spec(code: Seq<char>) -> ResponseView {
    match parse_spec(initial_state(DEFAULT_DEPTH as nat), code) {
        Err((_, e)) => failure(e),
        Ok((st1, program)) => match program.entry {
            None => ResponseView { output: "No entry found for program!"@, success: false },
            Some(entry) => match eval(st1, Scope::Root, entry, st1.max_depth) {
                Err((_, e)) => failure(e),
                Ok((st2, value)) => ResponseView {
                    output: cell_text(st2, value, st2.max_depth),
                    success: true,
                },
            },
        },
    }
}

fn fail(e: LispError) -> (r: SubmitCodeResponse)
    ensures
        r@ == failure(e),
{
    SubmitCodeResponse { output: String::from_str(e.message()), success: false }
}

/// Runs code in a runtime of its own and answers with the text of its
/// value, or with a diagnostic.
pub fn run_code(code: String) -> (r: SubmitCodeResponse)
    ensures
        r@ == run_code_spec(code@),
{
    let mut rt = Runtime::new();
    let program = match parse(code, &mut rt) {
        Err(e) => {
            return fail(e);
        },
        Ok(p) => p,
    };
    if program.entry.is_none() {
        return SubmitCodeResponse {
            output: String::from_str("No entry found for program!"),
            success: false,
        };
    }
    match exec_prog(&mut rt, program) {
        Err(e) => fail(e),
        Ok(value) => SubmitCodeResponse { output: print_cell(&value, &rt), success: true },
    }
}

} // verus!
