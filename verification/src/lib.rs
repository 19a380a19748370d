//! A small expression language: programs made of variable bindings, builtin
//! utility invocations (`RAND`, `PRINT`) and one final arithmetic expression
//! are parsed and then evaluated to a decimal string.
use vstd::prelude::*;
use vstd::string::StringExecFns;

pub mod ast;
pub mod context;
pub mod eval;
pub mod numfmt;
pub mod parser;
pub mod rng;

use crate::context::{builtins_env, initial_state, Context};
use crate::eval::{eval_program, eval_program_model, EvalError};
use crate::numfmt::{dec_str_i32, i32_to_string};
use crate::parser::{parse_program, parse_program_model};

verus! {

/// How a whole run can fail: the input does not conform to the grammar (with
/// the offending position), or evaluation fails. Every failure is fatal and
/// produces no partial output.
#[derive(Clone, Copy, Debug, PartialEq, Eq, Structural)]
pub enum RunError {
    Syntax(usize),
    Eval(EvalError),
}

/// The mathematical counterpart of `RunError`.
pub enum RunErrorModel {
    Syntax,
    Eval(EvalError),
}

impl View for RunError {
    type V = RunErrorModel;

    open spec fn view(&self) -> RunErrorModel {
        match self {
            RunError::Syntax(_) => RunErrorModel::Syntax,
            RunError::Eval(k) => RunErrorModel::Eval(*k),
        }
    }
}

/// What a whole run returns for a given program text and seed: the parsed
/// program is evaluated against an environment holding exactly the builtins,
/// and the accumulated output is followed by the final integer in decimal.
/// This is a function of `input` and `seed` alone, so two runs with the same
/// arguments return the same thing.
pub open spec fn process_model(input: Seq<char>, seed: u64) -> Result<Seq<char>, RunErrorModel> {
    match parse_program_model(input) {
        None => Err(RunErrorModel::Syntax),
        Some(m) => match eval_program_model(builtins_env(), seed, initial_state(), m) {
            Err(k) => Err(RunErrorModel::Eval(k)),
            Ok((out, v)) => Ok(out + dec_str_i32(v)),
        },
    }
}

/// Parses and evaluates `input` with a pseudo-random source seeded by `seed`,
/// as `process_model` says. Identical `(input, seed)` always give an
/// identical result; any parse or evaluation failure aborts the run with no
/// partial output.
pub fn process_with_seed(input: &str, seed: u64) -> (r: Result<String, RunError>)
    ensures
        ({
            let m = process_model(input@, seed);
            match r {
                Ok(s) => m matches Ok(o) && s@ == o,
                Err(e) => m matches Err(k) && e@ == k,
            }
        }),
{
    match parse_program(input) {
        Err(pos) => Err(RunError::Syntax(pos)),
        Ok(math) => {
            let cx = Context::builtins(seed);
            match eval_program(cx, &math) {
                Err(k) => Err(RunError::Eval(k)),
                Ok((out, v)) => {
                    let mut s = out;
                    s.append(i32_to_string(v).as_str());
                    proof {
                        assert(s@ =~= process_model(input@, seed)->Ok_0);
                    }
                    Ok(s)
                },
            }
        },
    }
}

} // verus!
