//! The whole pipeline on a source text: lex, parse, optionally optimize, run.
use vstd::prelude::*;
use crate::ast::AST;
use crate::grammar::{parse_spec, tok};
use crate::interpreter::{Interpreter, initial_eval_state, texts_view};
use crate::lexer::{LexError, lex_spec, tokenize};
use crate::optim::{Optimizer, optimize_spec};
use crate::parser::ParseError;
use crate::semantics::{RuntimeError, exec_block};

verus! {

#[derive(Debug, Clone, PartialEq)]
pub enum Error {
    Lex(LexError),
    Parse(ParseError),
    Runtime(RuntimeError),
}

/// Runs a source text with a step budget: the lines it printed, and how it
/// ended. Lexing and parsing errors come before anything runs.
pub fn run_source_with_fuel(source: &str, optimize: bool, fuel: u64) -> (r: (Vec<String>, Result<(), Error>))
    ensures
        match lex_spec(source@) {
            Err(e) => r.0@.len() == 0 && r.1 == Err::<(), Error>(Error::Lex(e)),
            Ok(ts) => match parse_spec(ts) {
                Err((p, wanted)) => r.0@.len() == 0 && r.1 is Err && r.1->Err_0 is Parse && r.1->Err_0->Parse_0.position == p
                    && r.1->Err_0->Parse_0.expected == wanted && r.1->Err_0->Parse_0.found@ == tok(ts, p),
                Ok(prog) => {
                    let program = if optimize {
                        optimize_spec(prog)
                    } else {
                        prog
                    };
                    let (st, res) = exec_block(initial_eval_state(), program, fuel as nat);
                    &&& texts_view(r.0@) == st.output
                    &&& match res {
                        Ok(_) => r.1 is Ok,
                        Err(x) => r.1 == Err::<(), Error>(Error::Runtime(x)),
                    }
                },
            },
        },
{
    let tokens = match tokenize(source) {
        Ok(ts) => ts,
        Err(e) => {
            return (Vec::new(), Err(Error::Lex(e)));
        },
    };
    let ast = match AST::new(tokens) {
        Ok(ast) => ast,
        Err(p) => {
            return (Vec::new(), Err(Error::Parse(p)));
        },
    };
    let ast = if optimize {
        let mut optimizer = Optimizer::new(ast);
        optimizer.optimize()
    } else {
        ast
    };
    let mut interpreter = Interpreter::new(ast);
    let outcome = interpreter.run_with_fuel(fuel);
    let printed = interpreter.printed();
    match outcome {
        Ok(_) => (printed, Ok(())),
        Err(x) => (printed, Err(Error::Runtime(x))),
    }
}

/// Runs a source text with the largest step budget.
pub fn run_source(source: &str, optimize: bool) -> (r: (Vec<String>, Result<(), Error>))
    ensures
        match lex_spec(source@) {
            Err(e) => r.0@.len() == 0 && r.1 == Err::<(), Error>(Error::Lex(e)),
            Ok(ts) => match parse_spec(ts) {
                Err((p, wanted)) => r.0@.len() == 0 && r.1 is Err && r.1->Err_0 is Parse && r.1->Err_0->Parse_0.position == p
                    && r.1->Err_0->Parse_0.expected == wanted && r.1->Err_0->Parse_0.found@ == tok(ts, p),
                Ok(prog) => {
                    let program = if optimize {
                        optimize_spec(prog)
                    } else {
                        prog
                    };
                    let (st, res) = exec_block(initial_eval_state(), program, u64::MAX as nat);
                    &&& texts_view(r.0@) == st.output
                    &&& match res {
                        Ok(_) => r.1 is Ok,
                        Err(x) => r.1 == Err::<(), Error>(Error::Runtime(x)),
                    }
                },
            },
        },
{
    run_source_with_fuel(source, optimize, u64::MAX)
}

} // verus!
