//! The whole way from a source text to a value.
use vstd::prelude::*;
use crate::error::{Error, ErrorView};
use crate::evaluator::{eval, evaluate};
use crate::frame::{Env, Frame};
use crate::lexer::{lex, tokenize};
use crate::parser::{parse, parsed};
use crate::reals::{unit_ready, RealUnit};
use crate::value::{Val, Value};

verus! {

/// What interpreting `input` in the store `env` gives: the value of the
/// first expression of the text, evaluated in the current frame, and the
/// store after it; or the fault of the first stage that failed, which
/// leaves the store as the stage left it.
pub open spec fn interpreted<U: RealUnit>(unit: &U, input: Seq<char>, env: Env) -> (
    Result<Val, ErrorView>,
    Env,
) {
    match lex(input) {
        Err(fault) => (Err(ErrorView::TokenError(fault)), env),
        Ok(tokens) => match parsed(unit, tokens, 0).0 {
            Err(fault) => (Err(ErrorView::of_parse(fault)), env),
            Ok(expression) => {
                let outcome = evaluate(
                    unit,
                    expression,
                    env,
                    env.current,
                    false,
                    env.depth as nat,
                );
                match outcome.0 {
                    Ok(value) => (Ok(value), outcome.1),
                    Err(fault) => (Err(ErrorView::of_eval(fault)), outcome.1),
                }
            },
        },
    }
}

/// The mathematical content of what `interpret` returns, with the store
/// it left.
pub open spec fn interpretation(result: Result<Value, Error>, env: Env) -> (
    Result<Val, ErrorView>,
    Env,
) {
    match result {
        Ok(value) => (Ok(value@), env),
        Err(fault) => (Err(fault@), env),
    }
}

/// Reads the first expression of `input` and evaluates it in the current
/// frame. What was defined before a fault stays defined.
pub fn interpret<U: RealUnit>(input: &str, frame: &mut Frame, unit: &U) -> (result: Result<
    Value,
    Error,
>)
    requires
        unit_ready(unit),
    ensures
        interpretation(result, final(frame)@) == interpreted(unit, input@, old(frame)@),
{
    let mut tokens = match tokenize(input) {
        Ok(tokens) => tokens,
        Err(fault) => {
            return Err(Error::TokenError(fault));
        },
    };
    let expression = match parse(&mut tokens, unit) {
        Ok(expression) => expression,
        Err(fault) => {
            return Err(Error::from(fault));
        },
    };
    match eval(expression, frame, false, unit) {
        Ok(value) => Ok(value),
        Err(fault) => Err(Error::from(fault)),
    }
}

} // verus!
