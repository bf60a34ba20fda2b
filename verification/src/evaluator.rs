//! The evaluator: an expression and a frame to a value.
use vstd::prelude::*;
use crate::builtin::math::{
    compared, difference_of, product_of, quotient_of, sum_of, Applied, Relation,
};
use crate::builtin::pair::{
    car_of, cdr_of, cons_of, data_of, is_null_of, is_pair_of, kind_of, length_of, list_from, not_of,
    Kind,
};
use crate::builtin::{math, pair, sequence};
use crate::data_model::{ending, items, link_views, list_of, Datum, Expression, Link};
use crate::error::{
    arity_fault, invalid_symbol, validate_number_of_arguments, ApplyError, ApplyErrorView,
    EvalError, EvalErrorView, InvalidArgument, InvalidArgumentView,
};
use crate::frame::{Env, Frame};
use crate::parser::build_list;
use crate::printer::print_datum;
use crate::reals::{unit_ready, RealUnit};
use crate::text::same_text;
use crate::value::{
    applicable, print_val, texts, value_views, Builtin, BuiltinProcedure, Closure, Control,
    LambdaProcedure, Port, Procedure, Thunk, Val, Value,
};

verus! {

/// The forms whose operands are not evaluated as those of a procedure are.
#[derive(Debug, Clone, Copy, PartialEq, Eq, Structural)]
pub enum SpecialForm {
    And,
    Begin,
    Case,
    Cond,
    Define,
    Delay,
    Do,
    If,
    Lambda,
    Let,
    LetRec,
    LetRecSyntax,
    LetStar,
    LetSyntax,
    Or,
    QuasiQuote,
    Quote,
    Assign,
    SyntaxRules,
    Unless,
    Unquote,
    UnquoteSplicing,
    When,
}

impl SpecialForm {
    /// The keyword of the form.
    pub open spec fn keyword(self) -> Seq<char> {
        match self {
            SpecialForm::And => "and"@,
            SpecialForm::Begin => "begin"@,
            SpecialForm::Case => "case"@,
            SpecialForm::Cond => "cond"@,
            SpecialForm::Define => "define"@,
            SpecialForm::Delay => "delay"@,
            SpecialForm::Do => "do"@,
            SpecialForm::If => "if"@,
            SpecialForm::Lambda => "lambda"@,
            SpecialForm::Let => "let"@,
            SpecialForm::LetRec => "letrec"@,
            SpecialForm::LetRecSyntax => "letrec-syntax"@,
            SpecialForm::LetStar => "let*"@,
            SpecialForm::LetSyntax => "let-syntax"@,
            SpecialForm::Or => "or"@,
            SpecialForm::QuasiQuote => "quasiquote"@,
            SpecialForm::Quote => "quote"@,
            SpecialForm::Assign => "set!"@,
            SpecialForm::SyntaxRules => "syntax-rules"@,
            SpecialForm::Unless => "unless"@,
            SpecialForm::Unquote => "unquote"@,
            SpecialForm::UnquoteSplicing => "unquote-splicing"@,
            SpecialForm::When => "when"@,
        }
    }
}

/// Every special form, in the order in which a name is held against their
/// keywords.
pub open spec fn all_forms() -> Seq<SpecialForm> {
    seq![
        SpecialForm::And,
        SpecialForm::Begin,
        SpecialForm::Case,
        SpecialForm::Cond,
        SpecialForm::Define,
        SpecialForm::Delay,
        SpecialForm::Do,
        SpecialForm::If,
        SpecialForm::Lambda,
        SpecialForm::Let,
        SpecialForm::LetRec,
        SpecialForm::LetRecSyntax,
        SpecialForm::LetStar,
        SpecialForm::LetSyntax,
        SpecialForm::Or,
        SpecialForm::QuasiQuote,
        SpecialForm::Quote,
        SpecialForm::Assign,
        SpecialForm::SyntaxRules,
        SpecialForm::Unless,
        SpecialForm::Unquote,
        SpecialForm::UnquoteSplicing,
        SpecialForm::When,
    ]
}

/// The first of the forms from `i` on whose keyword is `name`.
pub open spec fn form_from(name: Seq<char>, i: int) -> Option<SpecialForm>
    decreases all_forms().len() - i,
{
    if i < 0 || i >= all_forms().len() {
        None
    } else if all_forms()[i].keyword() == name {
        Some(all_forms()[i])
    } else {
        form_from(name, i + 1)
    }
}

/// The special form that `name` is the keyword of.
pub open spec fn special_form(name: Seq<char>) -> Option<SpecialForm> {
    form_from(name, 0)
}

/// The special form that an expression in operator position names.
pub open spec fn form_of(operator: Datum) -> Option<SpecialForm> {
    match operator {
        Datum::Symbol(name) => special_form(name),
        _ => None,
    }
}

/// What evaluation gives: the value or the fault, and the store it leaves.
pub type Outcome = (Result<Val, EvalErrorView>, Env);

/// What evaluating several expressions gives.
pub type Outcomes = (Result<Seq<Val>, EvalErrorView>, Env);

/// The fault of a provided procedure or of an operand check, as a fault of
/// evaluation.
pub open spec fn apply_fault(fault: ApplyErrorView) -> EvalErrorView {
    EvalErrorView::ApplyError(fault)
}

/// The fault of an operand, as a fault of evaluation.
pub open spec fn argument_fault(fault: InvalidArgumentView) -> EvalErrorView {
    EvalErrorView::ApplyError(ApplyErrorView::InvalidArgument(fault))
}

/// The fault of an operand of the wrong kind.
pub open spec fn type_fault<U: RealUnit>(unit: &U, d: Datum, expected: Seq<char>) -> EvalErrorView {
    argument_fault(InvalidArgumentView::InvalidType(print_datum(unit, d), expected))
}

/// The value of a boolean.
pub open spec fn truth(boolean: bool) -> Val {
    Val::Datum(Datum::Boolean(boolean))
}

/// Whether a value counts as true: every value but `#f` does.
pub open spec fn truthy(v: Val) -> bool {
    v != truth(false)
}

/// The list without its first `n` elements.
pub open spec fn after(d: Datum, n: nat) -> Datum
    decreases n,
{
    if n == 0 {
        d
    } else {
        match d {
            Datum::Pair(_, cdr) => after(*cdr, (n - 1) as nat),
            other => other,
        }
    }
}

/// What a provided procedure gives for the operands `args`.
pub open spec fn apply_builtin<U: RealUnit>(unit: &U, function: Builtin, args: Seq<Val>) -> Applied {
    match function {
        Builtin::Add => sum_of(unit, args),
        Builtin::Sub => difference_of(unit, args),
        Builtin::Mul => product_of(unit, args),
        Builtin::Div => quotient_of(unit, args),
        Builtin::MathEqual => compared(unit, Relation::Equal, args),
        Builtin::LessThan => compared(unit, Relation::Less, args),
        Builtin::LessThanOrEqual => compared(unit, Relation::LessOrEqual, args),
        Builtin::GreaterThan => compared(unit, Relation::Greater, args),
        Builtin::GreaterThanOrEqual => compared(unit, Relation::GreaterOrEqual, args),
        Builtin::IsPair => is_pair_of(unit, args),
        Builtin::Car => car_of(unit, args),
        Builtin::Cdr => cdr_of(unit, args),
        Builtin::Cons => cons_of(unit, args),
        Builtin::IsNull => is_null_of(unit, args),
        Builtin::List => list_from(unit, args),
        Builtin::Length => length_of(unit, args),
        Builtin::Not => not_of(unit, args),
        Builtin::IsNumber => kind_of(unit, Kind::Number, args),
        Builtin::IsSymbol => kind_of(unit, Kind::Symbol, args),
        Builtin::IsString => kind_of(unit, Kind::String, args),
        Builtin::IsBoolean => kind_of(unit, Kind::Boolean, args),
        Builtin::IsProcedure => kind_of(unit, Kind::Procedure, args),
        Builtin::IsVector => kind_of(unit, Kind::Vector, args),
        Builtin::Abs => math::abs_of(unit, args),
        Builtin::Min => math::extreme_of(unit, false, args),
        Builtin::Max => math::extreme_of(unit, true, args),
        Builtin::Quotient => math::division_of(unit, math::Division::Quotient, args),
        Builtin::Remainder => math::division_of(unit, math::Division::Remainder, args),
        Builtin::Modulo => math::division_of(unit, math::Division::Modulo, args),
        Builtin::Expt => math::expt_of(unit, args),
        Builtin::IsInteger => kind_of(unit, Kind::Integer, args),
        Builtin::IsReal => kind_of(unit, Kind::Real, args),
        Builtin::IsComplex => kind_of(unit, Kind::Complex, args),
        Builtin::Append => sequence::append_of(unit, args),
        Builtin::Reverse => sequence::reverse_of(unit, args),
        Builtin::ListRef => sequence::list_ref_of(unit, args),
        Builtin::ListTail => sequence::list_tail_of(unit, args),
        Builtin::IsEq => sequence::alike_of(unit, "#[eq?]"@, args),
        Builtin::IsEqv => sequence::alike_of(unit, "#[eqv?]"@, args),
        Builtin::IsEqual => sequence::alike_of(unit, "#[equal?]"@, args),
        Builtin::StringLength => sequence::string_length_of(unit, args),
        Builtin::StringRef => sequence::string_ref_of(unit, args),
        Builtin::Substring => sequence::substring_of(unit, args),
        Builtin::StringAppend => sequence::string_append_of(unit, args),
        Builtin::StringToSymbol => sequence::string_to_symbol_of(unit, args),
        Builtin::SymbolToString => sequence::symbol_to_string_of(unit, args),
        Builtin::MakeVector => sequence::make_vector_of(unit, args),
        Builtin::Vector => sequence::vector_from(unit, args),
        Builtin::VectorLength => sequence::vector_length_of(unit, args),
        Builtin::VectorRef => sequence::vector_ref_of(unit, args),
        Builtin::VectorToList => sequence::vector_to_list_of(unit, args),
        Builtin::ListToVector => sequence::list_to_vector_of(unit, args),
    }
}

/// The names of the formals `list` from `i` on; the first that is no
/// symbol is a fault.
pub open spec fn formal_names<U: RealUnit>(unit: &U, list: Seq<Datum>, i: int) -> Result<
    Seq<Seq<char>>,
    EvalErrorView,
>
    decreases list.len() - i,
{
    if i < 0 || i >= list.len() {
        Ok(Seq::empty())
    } else {
        match list[i] {
            Datum::Symbol(name) => match formal_names(unit, list, i + 1) {
                Ok(rest) => Ok(seq![name] + rest),
                Err(fault) => Err(fault),
            },
            other => Err(type_fault(unit, other, "symbol"@)),
        }
    }
}

/// The procedure that `lambda` makes in frame `scope` from the formals
/// `formals` and the body `body`. A list of symbols names one formal for
/// each operand; a symbol where the list ends, or in place of the list,
/// takes the operands that are left, as a list.
pub open spec fn closure<U: RealUnit>(
    unit: &U,
    formals: Datum,
    body: Datum,
    name: Option<Seq<char>>,
    scope: usize,
) -> Result<Closure, EvalErrorView> {
    match formal_names(unit, items(formals), 0) {
        Err(fault) => Err(fault),
        Ok(names) => match ending(formals) {
            Datum::Nil => Ok(Closure { name, formals: names, rest: None, body, frame: scope }),
            Datum::Symbol(rest) => Ok(
                Closure { name, formals: names, rest: Some(rest), body, frame: scope },
            ),
            other => Err(type_fault(unit, other, "symbol"@)),
        },
    }
}

/// The store after the formals from `i` on are bound, in frame `scope`, to
/// the operands at their places.
pub open spec fn bound(env: Env, scope: int, formals: Seq<Seq<char>>, args: Seq<Val>, i: int) -> Env
    decreases formals.len() - i,
{
    if i < 0 || i >= formals.len() || i >= args.len() {
        env
    } else {
        bound(env.define(scope, formals[i], args[i]), scope, formals, args, i + 1)
    }
}

/// The name that a procedure made by `lambda` reports itself under.
pub open spec fn lambda_label(closure: Closure) -> Seq<char> {
    match closure.name {
        Some(name) => name,
        None => "#[lambda]"@,
    }
}

/// The most operands that a procedure made by `lambda` takes.
pub open spec fn most_operands(closure: Closure) -> usize {
    if closure.rest is Some {
        usize::MAX
    } else {
        closure.formals.len() as usize
    }
}

/// The value that `name` is known by in frame `scope`: what the chain of
/// frames binds it to, unless that is the mark of a name of `letrec`
/// whose expression has not been evaluated yet.
pub open spec fn known(env: Env, scope: usize, name: Seq<char>) -> Option<Val> {
    match env.lookup(scope as int, name) {
        Some(Val::Uninitialized) => None,
        other => other,
    }
}

/// The value of `d` in frame `scope`, with `depth` levels of nesting left.
/// A number, a string, a boolean, a vector, a promise and the empty list
/// are their own value; a symbol has the value it is bound to; a pair is a
/// special form where its first element is the keyword of one, and else a
/// call. A call in tail position is not made: it is returned to be made by
/// the call that it ends.
pub open spec fn evaluate<U: RealUnit>(
    unit: &U,
    d: Datum,
    env: Env,
    scope: usize,
    tail: bool,
    depth: nat,
) -> Outcome
    decreases depth, 0int, 0int,
{
    if depth == 0 {
        (Err(EvalErrorView::BudgetExhausted), env)
    } else {
        match d {
            Datum::Pair(car, cdr) => match form_of(*car) {
                Some(form) => apply_form(unit, form, *cdr, env, scope, tail, (depth - 1) as nat),
                None => if tail {
                    (Ok(Val::Thunk(d, scope)), env)
                } else {
                    call(unit, d, env, scope, (depth - 1) as nat, env.rounds as nat)
                },
            },
            Datum::Symbol(name) => match known(env, scope, name) {
                Some(value) => (Ok(value), env),
                None => (Err(EvalErrorView::UnknownIdentifier(name)), env),
            },
            other => (Ok(Val::Datum(other)), env),
        }
    }
}

/// The values of the expressions of `list` from `i` on, left to right.
pub open spec fn evaluate_each<U: RealUnit>(
    unit: &U,
    list: Seq<Datum>,
    i: int,
    env: Env,
    scope: usize,
    depth: nat,
) -> Outcomes
    decreases depth, 1int, list.len() - i,
{
    if i < 0 || i >= list.len() {
        (Ok(Seq::empty()), env)
    } else {
        let first = evaluate(unit, list[i], env, scope, false, depth);
        match first.0 {
            Err(fault) => (Err(fault), first.1),
            Ok(value) => {
                let rest = evaluate_each(unit, list, i + 1, first.1, scope, depth);
                match rest.0 {
                    Err(fault) => (Err(fault), rest.1),
                    Ok(values) => (Ok(seq![value] + values), rest.1),
                }
            },
        }
    }
}

/// The value of the last of the expressions of `list` from `i` on, after
/// the others have been evaluated in order; the void value for none. Only
/// the last is in tail position, where `tail` says so.
pub open spec fn evaluate_all<U: RealUnit>(
    unit: &U,
    list: Seq<Datum>,
    i: int,
    env: Env,
    scope: usize,
    tail: bool,
    depth: nat,
) -> Outcome
    decreases depth, 1int, list.len() - i,
{
    if i < 0 || i >= list.len() {
        (Ok(Val::Void), env)
    } else if i == list.len() - 1 {
        evaluate(unit, list[i], env, scope, tail, depth)
    } else {
        let first = evaluate(unit, list[i], env, scope, false, depth);
        match first.0 {
            Err(fault) => (Err(fault), first.1),
            Ok(_) => evaluate_all(unit, list, i + 1, first.1, scope, tail, depth),
        }
    }
}

/// The call `d` made in frame `scope`: the operator is evaluated, then
/// the operands from left to right, then the procedure is applied. Where
/// the procedure ends in a call in tail position, that call is made next,
/// in place of this one, `rounds` times at most.
pub open spec fn call<U: RealUnit>(
    unit: &U,
    d: Datum,
    env: Env,
    scope: usize,
    depth: nat,
    rounds: nat,
) -> Outcome
    decreases depth, 5int, rounds,
{
    match d {
        Datum::Pair(car, cdr) => {
            let operator = evaluate(unit, *car, env, scope, false, depth);
            match operator.0 {
                Err(fault) => (Err(fault), operator.1),
                Ok(procedure) => if applicable(procedure) {
                    let operands = evaluate_each(unit, items(*cdr), 0, operator.1, scope, depth);
                    match operands.0 {
                        Err(fault) => (Err(fault), operands.1),
                        Ok(args) => {
                            let result = apply(unit, procedure, args, operands.1, depth);
                            match result.0 {
                                Ok(Val::Thunk(next, frame)) => if rounds == 0 {
                                    (Err(EvalErrorView::BudgetExhausted), result.1)
                                } else {
                                    call(unit, next, result.1, frame, depth, (rounds - 1) as nat)
                                },
                                _ => result,
                            }
                        },
                    }
                } else {
                    (
                        Err(
                            apply_fault(
                                ApplyErrorView::InvalidProcedure(print_val(unit, procedure)),
                            ),
                        ),
                        operator.1,
                    )
                },
            }
        },
        other => evaluate(unit, other, env, scope, false, depth),
    }
}

/// What `display` shows of a value: a string without its quotes, any
/// other value as it is printed.
pub open spec fn shown<U: RealUnit>(unit: &U, v: Val) -> Seq<char> {
    match v {
        Val::Datum(Datum::String(text)) => text,
        other => print_val(unit, other),
    }
}

/// What a procedure of the output writes for the operands `args`:
/// `(display x)` what is shown of `x`, `(newline)` the end of a line.
pub open spec fn written<U: RealUnit>(unit: &U, port: Port, args: Seq<Val>) -> Result<
    Seq<char>,
    ApplyErrorView,
> {
    match port {
        Port::Display => match math::arity(unit, "#[display]"@, 1, 1, args.len()) {
            Some(fault) => Err(fault),
            None => Ok(shown(unit, args[0])),
        },
        Port::Newline => match math::arity(unit, "#[newline]"@, 0, 0, args.len()) {
            Some(fault) => Err(fault),
            None => Ok(seq!['\n']),
        },
    }
}

/// What a procedure gives when it is applied and every call in tail
/// position that it ends in is made.
pub open spec fn invoke<U: RealUnit>(
    unit: &U,
    procedure: Val,
    args: Seq<Val>,
    env: Env,
    depth: nat,
) -> Outcome
    decreases depth, 6int, 0int,
{
    let result = apply(unit, procedure, args, env, depth);
    match result.0 {
        Ok(Val::Thunk(next, frame)) => call(unit, next, result.1, frame, depth, result.1.rounds as nat),
        _ => result,
    }
}

/// `(force p)`: the value of the expression of a promise, evaluated in
/// the frame in which it was delayed.
pub open spec fn force<U: RealUnit>(unit: &U, args: Seq<Val>, env: Env, depth: nat) -> Outcome
    decreases depth, 7int, 0int,
{
    match math::arity(unit, "#[force]"@, 1, 1, args.len()) {
        Some(fault) => (Err(apply_fault(fault)), env),
        None => match args[0] {
            Val::Datum(Datum::Promise(expression, frame)) => evaluate(
                unit,
                *expression,
                env,
                frame,
                false,
                depth,
            ),
            other => (Err(apply_fault(math::wrong_type(unit, other, "promise"@))), env),
        },
    }
}

/// The procedure applied to each of `elements` from `i` on, in order.
/// Where the results are collected they are given in the same order, and
/// each must be an expression; where they are not, none is kept.
pub open spec fn map_from<U: RealUnit>(
    unit: &U,
    collect: bool,
    procedure: Val,
    elements: Seq<Datum>,
    i: int,
    env: Env,
    depth: nat,
) -> (Result<Seq<Datum>, EvalErrorView>, Env)
    decreases depth, 7int, elements.len() - i,
{
    if i < 0 || i >= elements.len() {
        (Ok(Seq::empty()), env)
    } else {
        let first = invoke(unit, procedure, seq![Val::Datum(elements[i])], env, depth);
        match first.0 {
            Err(fault) => (Err(fault), first.1),
            Ok(value) => if collect && !(value is Datum) {
                (Err(apply_fault(math::wrong_type(unit, value, "expression"@))), first.1)
            } else {
                let rest = map_from(unit, collect, procedure, elements, i + 1, first.1, depth);
                match rest.0 {
                    Err(fault) => (Err(fault), rest.1),
                    Ok(results) => match value {
                        Val::Datum(d) => if collect {
                            (Ok(seq![d] + results), rest.1)
                        } else {
                            (Ok(results), rest.1)
                        },
                        _ => (Ok(results), rest.1),
                    },
                }
            },
        }
    }
}

/// The name that `map` or `for-each` reports itself under.
pub open spec fn map_label(collect: bool) -> Seq<char> {
    if collect {
        "#[map]"@
    } else {
        "#[for-each]"@
    }
}

/// `(map f l)` is the list of what `f` gives for each element of `l`;
/// `(for-each f l)` applies `f` in the same way and gives nothing.
pub open spec fn map_list<U: RealUnit>(
    unit: &U,
    collect: bool,
    args: Seq<Val>,
    env: Env,
    depth: nat,
) -> Outcome
    decreases depth, 8int, 0int,
{
    match math::arity(unit, map_label(collect), 2, 2, args.len()) {
        Some(fault) => (Err(apply_fault(fault)), env),
        None => if !applicable(args[0]) {
            (
                Err(apply_fault(ApplyErrorView::InvalidProcedure(print_val(unit, args[0])))),
                env,
            )
        } else {
            match args[1] {
                Val::Datum(list) => {
                    let results = map_from(unit, collect, args[0], items(list), 0, env, depth);
                    match results.0 {
                        Err(fault) => (Err(fault), results.1),
                        Ok(data) => if collect {
                            (Ok(Val::Datum(list_of(data, Datum::Nil))), results.1)
                        } else {
                            (Ok(Val::Void), results.1)
                        },
                    }
                },
                other => (Err(apply_fault(math::wrong_type(unit, other, "list"@))), env),
            }
        },
    }
}

/// What a procedure gives for the operands `args`. A procedure of the
/// turtle changes the canvas and nothing else of the store; a procedure of
/// the output adds to what is written.
pub open spec fn apply<U: RealUnit>(
    unit: &U,
    procedure: Val,
    args: Seq<Val>,
    env: Env,
    depth: nat,
) -> Outcome
    decreases depth, 4int, 0int,
{
    match procedure {
        Val::Builtin(function) => match apply_builtin(unit, function, args) {
            Ok(value) => (Ok(value), env),
            Err(fault) => (Err(apply_fault(fault)), env),
        },
        Val::Graphic(function) => {
            let step = crate::builtin::graphic::turtle_step(unit, function, args, env.canvas);
            match step.0 {
                Ok(value) => (Ok(value), Env { canvas: step.1, ..env }),
                Err(fault) => (Err(apply_fault(fault)), Env { canvas: step.1, ..env }),
            }
        },
        Val::Port(port) => match written(unit, port, args) {
            Ok(text) => (Ok(Val::Void), Env { output: env.output + text, ..env }),
            Err(fault) => (Err(apply_fault(fault)), env),
        },
        Val::Control(control) => if depth == 0 {
            (Err(EvalErrorView::BudgetExhausted), env)
        } else {
            match control {
                Control::Force => force(unit, args, env, (depth - 1) as nat),
                Control::MapList => map_list(unit, true, args, env, (depth - 1) as nat),
                Control::ForEach => map_list(unit, false, args, env, (depth - 1) as nat),
            }
        },
        Val::Lambda(closure) => apply_lambda(unit, closure, args, env, depth),
        other => (
            Err(apply_fault(ApplyErrorView::InvalidProcedure(print_val(unit, other)))),
            env,
        ),
    }
}

/// What a procedure made by `lambda` gives: a new frame under the frame it
/// was made in binds each formal to its operand, and the operands beyond
/// the formals, as a list, to the formal that takes the rest; the body is
/// evaluated there, its last expression in tail position.
pub open spec fn apply_lambda<U: RealUnit>(
    unit: &U,
    closure: Closure,
    args: Seq<Val>,
    env: Env,
    depth: nat,
) -> Outcome
    decreases depth, 3int, 0int,
{
    match arity_fault(
        lambda_label(closure),
        closure.formals.len() as usize,
        most_operands(closure),
        args.len() as usize,
    ) {
        Some(fault) => (Err(argument_fault(fault)), env),
        None => {
            let scope = env.scopes.len() as usize;
            let entered = bound(env.push(closure.frame), scope as int, closure.formals, args, 0);
            match closure.rest {
                None => evaluate_all(unit, items(closure.body), 0, entered, scope, true, depth),
                Some(rest) => match data_of(unit, args, closure.formals.len() as int) {
                    Err(fault) => (Err(apply_fault(fault)), entered),
                    Ok(extra) => evaluate_all(
                        unit,
                        items(closure.body),
                        0,
                        entered.define(scope as int, rest, Val::Datum(list_of(extra, Datum::Nil))),
                        scope,
                        true,
                        depth,
                    ),
                },
            }
        },
    }
}

/// The name and the initial expression of a binding of `let`.
pub open spec fn binding_parts<U: RealUnit>(unit: &U, binding: Datum) -> Result<
    (Seq<char>, Datum),
    EvalErrorView,
> {
    let parts = items(binding);
    if parts.len() == 2 && parts[0] is Symbol {
        Ok((parts[0]->Symbol_0, parts[1]))
    } else {
        Err(type_fault(unit, binding, "binding"@))
    }
}

/// The values of the initial expressions of the bindings from `i` on,
/// evaluated in frame `scope`, each with its name.
pub open spec fn let_values<U: RealUnit>(
    unit: &U,
    bindings: Seq<Datum>,
    i: int,
    env: Env,
    scope: usize,
    depth: nat,
) -> (Result<Seq<(Seq<char>, Val)>, EvalErrorView>, Env)
    decreases depth, 1int, bindings.len() - i,
{
    if i < 0 || i >= bindings.len() {
        (Ok(Seq::empty()), env)
    } else {
        match binding_parts(unit, bindings[i]) {
            Err(fault) => (Err(fault), env),
            Ok((name, initial)) => {
                let first = evaluate(unit, initial, env, scope, false, depth);
                match first.0 {
                    Err(fault) => (Err(fault), first.1),
                    Ok(value) => {
                        let rest = let_values(unit, bindings, i + 1, first.1, scope, depth);
                        match rest.0 {
                            Err(fault) => (Err(fault), rest.1),
                            Ok(values) => (Ok(seq![(name, value)] + values), rest.1),
                        }
                    },
                }
            },
        }
    }
}

/// The store after the names from `i` on are bound to their values in
/// frame `scope`.
pub open spec fn bound_all(env: Env, scope: int, values: Seq<(Seq<char>, Val)>, i: int) -> Env
    decreases values.len() - i,
{
    if i < 0 || i >= values.len() {
        env
    } else {
        bound_all(env.define(scope, values[i].0, values[i].1), scope, values, i + 1)
    }
}

/// The bindings from `i` on, one after the other: each initial expression
/// is evaluated in frame `scope` and its name bound there at once.
pub open spec fn let_sequence<U: RealUnit>(
    unit: &U,
    bindings: Seq<Datum>,
    i: int,
    env: Env,
    scope: usize,
    depth: nat,
) -> (Result<(), EvalErrorView>, Env)
    decreases depth, 1int, bindings.len() - i,
{
    if i < 0 || i >= bindings.len() {
        (Ok(()), env)
    } else {
        match binding_parts(unit, bindings[i]) {
            Err(fault) => (Err(fault), env),
            Ok((name, initial)) => {
                let first = evaluate(unit, initial, env, scope, false, depth);
                match first.0 {
                    Err(fault) => (Err(fault), first.1),
                    Ok(value) => let_sequence(
                        unit,
                        bindings,
                        i + 1,
                        first.1.define(scope as int, name, value),
                        scope,
                        depth,
                    ),
                }
            },
        }
    }
}

/// The clauses of `cond` from `i` on: the first whose test is true, or
/// which begins with `else`, gives the value of its body, or of the test
/// where it has no body; the void value where there is no such clause.
pub open spec fn cond_from<U: RealUnit>(
    unit: &U,
    clauses: Seq<Datum>,
    i: int,
    env: Env,
    scope: usize,
    tail: bool,
    depth: nat,
) -> Outcome
    decreases depth, 2int, clauses.len() - i,
{
    if i < 0 || i >= clauses.len() {
        (Ok(Val::Void), env)
    } else {
        let parts = items(clauses[i]);
        if parts.len() == 0 {
            (Err(type_fault(unit, clauses[i], "clause"@)), env)
        } else if parts[0] == Datum::Symbol("else"@) {
            evaluate_all(unit, parts, 1, env, scope, tail, depth)
        } else {
            let test = evaluate(unit, parts[0], env, scope, false, depth);
            match test.0 {
                Err(fault) => (Err(fault), test.1),
                Ok(value) => if truthy(value) {
                    if parts.len() == 1 {
                        (Ok(value), test.1)
                    } else {
                        evaluate_all(unit, parts, 1, test.1, scope, tail, depth)
                    }
                } else {
                    cond_from(unit, clauses, i + 1, test.1, scope, tail, depth)
                },
            }
        }
    }
}

/// The expressions of `and` from `i` on: `#f` at the first that is `#f`,
/// the others not being evaluated; else the value of the last; `#t` for
/// none.
pub open spec fn and_from<U: RealUnit>(
    unit: &U,
    list: Seq<Datum>,
    i: int,
    env: Env,
    scope: usize,
    tail: bool,
    depth: nat,
) -> Outcome
    decreases depth, 2int, list.len() - i,
{
    if i < 0 || i >= list.len() {
        (Ok(truth(true)), env)
    } else if i == list.len() - 1 {
        evaluate(unit, list[i], env, scope, tail, depth)
    } else {
        let first = evaluate(unit, list[i], env, scope, false, depth);
        match first.0 {
            Err(fault) => (Err(fault), first.1),
            Ok(value) => if truthy(value) {
                and_from(unit, list, i + 1, first.1, scope, tail, depth)
            } else {
                (Ok(value), first.1)
            },
        }
    }
}

/// The expressions of `or` from `i` on: the value of the first that is not
/// `#f`, the others not being evaluated; `#f` for none.
pub open spec fn or_from<U: RealUnit>(
    unit: &U,
    list: Seq<Datum>,
    i: int,
    env: Env,
    scope: usize,
    tail: bool,
    depth: nat,
) -> Outcome
    decreases depth, 2int, list.len() - i,
{
    if i < 0 || i >= list.len() {
        (Ok(truth(false)), env)
    } else if i == list.len() - 1 {
        evaluate(unit, list[i], env, scope, tail, depth)
    } else {
        let first = evaluate(unit, list[i], env, scope, false, depth);
        match first.0 {
            Err(fault) => (Err(fault), first.1),
            Ok(value) => if truthy(value) {
                (Ok(value), first.1)
            } else {
                or_from(unit, list, i + 1, first.1, scope, tail, depth)
            },
        }
    }
}

/// The fault of a form given a wrong number of operands, if the count is
/// one.
pub open spec fn form_arity(name: Seq<char>, least: usize, most: usize, count: nat) -> Option<
    EvalErrorView,
> {
    match arity_fault(name, least, most, count as usize) {
        Some(fault) => Some(argument_fault(fault)),
        None => None,
    }
}

/// `(quote x)`: `x` itself.
pub open spec fn quote_form<U: RealUnit>(unit: &U, args: Datum, env: Env) -> Outcome {
    match form_arity("quote"@, 1, 1, items(args).len()) {
        Some(fault) => (Err(fault), env),
        None => (Ok(Val::Datum(items(args)[0])), env),
    }
}

/// `(if test then else)`: the value of `then` where the test is not `#f`,
/// else that of `else`, or the void value where there is none.
pub open spec fn if_form<U: RealUnit>(
    unit: &U,
    args: Datum,
    env: Env,
    scope: usize,
    tail: bool,
    depth: nat,
) -> Outcome
    decreases depth, 2int, 0int,
{
    let list = items(args);
    match form_arity("if"@, 2, 3, list.len()) {
        Some(fault) => (Err(fault), env),
        None => {
            let test = evaluate(unit, list[0], env, scope, false, depth);
            match test.0 {
                Err(fault) => (Err(fault), test.1),
                Ok(value) => if truthy(value) {
                    evaluate(unit, list[1], test.1, scope, tail, depth)
                } else if list.len() == 3 {
                    evaluate(unit, list[2], test.1, scope, tail, depth)
                } else {
                    (Ok(Val::Void), test.1)
                },
            }
        },
    }
}

/// `(define name x)` binds `name` to the value of `x` in frame `scope`
/// itself; `(define (name formals...) body...)` binds `name` to the
/// procedure of those formals and that body.
pub open spec fn define_form<U: RealUnit>(
    unit: &U,
    args: Datum,
    env: Env,
    scope: usize,
    depth: nat,
) -> Outcome
    decreases depth, 2int, 0int,
{
    let list = items(args);
    match form_arity("define"@, 2, usize::MAX, list.len()) {
        Some(fault) => (Err(fault), env),
        None => match list[0] {
            Datum::Symbol(name) => match form_arity("define"@, 2, 2, list.len()) {
                Some(fault) => (Err(fault), env),
                None => {
                    let value = evaluate(unit, list[1], env, scope, false, depth);
                    match value.0 {
                        Err(fault) => (Err(fault), value.1),
                        Ok(value_of) => (
                            Ok(Val::Void),
                            value.1.define(scope as int, name, value_of),
                        ),
                    }
                },
            },
            Datum::Pair(head, formals) => match *head {
                Datum::Symbol(name) => match closure(
                    unit,
                    *formals,
                    after(args, 1),
                    Some(name),
                    scope,
                ) {
                    Err(fault) => (Err(fault), env),
                    Ok(made) => (Ok(Val::Void), env.define(scope as int, name, Val::Lambda(made))),
                },
                other => (Err(type_fault(unit, other, "symbol"@)), env),
            },
            other => (Err(type_fault(unit, other, "symbol or pair"@)), env),
        },
    }
}

/// `(lambda formals body...)`: a procedure that remembers frame `scope`.
pub open spec fn lambda_form<U: RealUnit>(unit: &U, args: Datum, env: Env, scope: usize) -> Outcome {
    match form_arity("lambda"@, 2, usize::MAX, items(args).len()) {
        Some(fault) => (Err(fault), env),
        None => match closure(unit, items(args)[0], after(args, 1), None, scope) {
            Err(fault) => (Err(fault), env),
            Ok(made) => (Ok(Val::Lambda(made)), env),
        },
    }
}

/// `(set! name x)`: the value of `x` takes the place of the binding of
/// `name` in the nearest frame that has one.
pub open spec fn set_form<U: RealUnit>(
    unit: &U,
    args: Datum,
    env: Env,
    scope: usize,
    depth: nat,
) -> Outcome
    decreases depth, 2int, 0int,
{
    let list = items(args);
    match form_arity("set!"@, 2, 2, list.len()) {
        Some(fault) => (Err(fault), env),
        None => match list[0] {
            Datum::Symbol(name) => {
                let value = evaluate(unit, list[1], env, scope, false, depth);
                match value.0 {
                    Err(fault) => (Err(fault), value.1),
                    Ok(value_of) => match value.1.home(scope as int, name) {
                        Some(home) => (Ok(Val::Void), value.1.define(home, name, value_of)),
                        None => (Err(EvalErrorView::UnknownIdentifier(name)), value.1),
                    },
                }
            },
            other => (Err(type_fault(unit, other, "symbol"@)), env),
        },
    }
}

/// `(let ((name x) ...) body...)`: every `x` is evaluated in frame
/// `scope`; then a new frame under it binds the names, and the body is
/// evaluated there.
pub open spec fn let_form<U: RealUnit>(
    unit: &U,
    args: Datum,
    env: Env,
    scope: usize,
    tail: bool,
    depth: nat,
) -> Outcome
    decreases depth, 2int, 0int,
{
    let list = items(args);
    match form_arity("let"@, 2, usize::MAX, list.len()) {
        Some(fault) => (Err(fault), env),
        None => {
            let values = let_values(unit, items(list[0]), 0, env, scope, depth);
            match values.0 {
                Err(fault) => (Err(fault), values.1),
                Ok(pairs) => {
                    let inner = values.1.scopes.len() as usize;
                    evaluate_all(
                        unit,
                        list,
                        1,
                        bound_all(values.1.push(scope), inner as int, pairs, 0),
                        inner,
                        tail,
                        depth,
                    )
                },
            }
        },
    }
}

/// The names of the bindings from `i` on; the first binding that is
/// malformed is a fault.
pub open spec fn binding_names<U: RealUnit>(unit: &U, bindings: Seq<Datum>, i: int) -> Result<
    Seq<Seq<char>>,
    EvalErrorView,
>
    decreases bindings.len() - i,
{
    if i < 0 || i >= bindings.len() {
        Ok(Seq::empty())
    } else {
        match binding_parts(unit, bindings[i]) {
            Err(fault) => Err(fault),
            Ok((name, _)) => match binding_names(unit, bindings, i + 1) {
                Ok(rest) => Ok(seq![name] + rest),
                Err(fault) => Err(fault),
            },
        }
    }
}

/// The store after the names from `i` on are marked, in frame `scope`, as
/// not yet known.
pub open spec fn marked(env: Env, scope: int, names: Seq<Seq<char>>, i: int) -> Env
    decreases names.len() - i,
{
    if i < 0 || i >= names.len() {
        env
    } else {
        marked(env.define(scope, names[i], Val::Uninitialized), scope, names, i + 1)
    }
}

/// `(letrec ((name x) ...) body...)`: a new frame under `scope` marks
/// every name as not yet known; then it takes the bindings one after the
/// other, each initial expression being evaluated in the new frame, where
/// a name that is still marked is unknown; the body is evaluated there.
pub open spec fn letrec_form<U: RealUnit>(
    unit: &U,
    args: Datum,
    env: Env,
    scope: usize,
    tail: bool,
    depth: nat,
) -> Outcome
    decreases depth, 2int, 0int,
{
    let list = items(args);
    match form_arity("letrec"@, 2, usize::MAX, list.len()) {
        Some(fault) => (Err(fault), env),
        None => match binding_names(unit, items(list[0]), 0) {
            Err(fault) => (Err(fault), env),
            Ok(names) => {
                let inner = env.scopes.len() as usize;
                let bindings = let_sequence(
                    unit,
                    items(list[0]),
                    0,
                    marked(env.push(scope), inner as int, names, 0),
                    inner,
                    depth,
                );
                match bindings.0 {
                    Err(fault) => (Err(fault), bindings.1),
                    Ok(_) => evaluate_all(unit, list, 1, bindings.1, inner, tail, depth),
                }
            },
        },
    }
}

/// `(let* ...)`: a new frame under `scope` takes the bindings one after
/// the other, each initial expression being evaluated in the new frame;
/// the body is evaluated there.
pub open spec fn let_star_form<U: RealUnit>(
    unit: &U,
    keyword: Seq<char>,
    args: Datum,
    env: Env,
    scope: usize,
    tail: bool,
    depth: nat,
) -> Outcome
    decreases depth, 2int, 0int,
{
    let list = items(args);
    match form_arity(keyword, 2, usize::MAX, list.len()) {
        Some(fault) => (Err(fault), env),
        None => {
            let inner = env.scopes.len() as usize;
            let bindings = let_sequence(unit, items(list[0]), 0, env.push(scope), inner, depth);
            match bindings.0 {
                Err(fault) => (Err(fault), bindings.1),
                Ok(_) => evaluate_all(unit, list, 1, bindings.1, inner, tail, depth),
            }
        },
    }
}

/// `(when test body...)` and `(unless test body...)`: the body is
/// evaluated where the test is true, for `unless` where it is `#f`.
pub open spec fn when_form<U: RealUnit>(
    unit: &U,
    keyword: Seq<char>,
    wanted: bool,
    args: Datum,
    env: Env,
    scope: usize,
    tail: bool,
    depth: nat,
) -> Outcome
    decreases depth, 2int, 0int,
{
    let list = items(args);
    match form_arity(keyword, 1, usize::MAX, list.len()) {
        Some(fault) => (Err(fault), env),
        None => {
            let test = evaluate(unit, list[0], env, scope, false, depth);
            match test.0 {
                Err(fault) => (Err(fault), test.1),
                Ok(value) => if truthy(value) == wanted {
                    evaluate_all(unit, list, 1, test.1, scope, tail, depth)
                } else {
                    (Ok(Val::Void), test.1)
                },
            }
        },
    }
}

/// `(delay x)`: `x` with the number of frame `scope`, not evaluated.
pub open spec fn delay_form<U: RealUnit>(unit: &U, args: Datum, env: Env, scope: usize) -> Outcome {
    match form_arity("delay"@, 1, 1, items(args).len()) {
        Some(fault) => (Err(fault), env),
        None => (Ok(Val::Datum(Datum::Promise(Box::new(items(args)[0]), scope))), env),
    }
}

/// The clauses of `case` from `i` on, held against the value `key`: the
/// first clause that lists an expression alike to the key, or begins with
/// `else`, gives the value of its body; the void value where there is no
/// such clause.
pub open spec fn case_from<U: RealUnit>(
    unit: &U,
    key: Val,
    clauses: Seq<Datum>,
    i: int,
    env: Env,
    scope: usize,
    tail: bool,
    depth: nat,
) -> Outcome
    decreases depth, 2int, clauses.len() - i,
{
    if i < 0 || i >= clauses.len() {
        (Ok(Val::Void), env)
    } else {
        let parts = items(clauses[i]);
        if parts.len() == 0 {
            (Err(type_fault(unit, clauses[i], "clause"@)), env)
        } else if parts[0] == Datum::Symbol("else"@) || (key is Datum && items(parts[0]).contains(
            key->Datum_0,
        )) {
            evaluate_all(unit, parts, 1, env, scope, tail, depth)
        } else {
            case_from(unit, key, clauses, i + 1, env, scope, tail, depth)
        }
    }
}

/// `(case key clause ...)`.
pub open spec fn case_form<U: RealUnit>(
    unit: &U,
    args: Datum,
    env: Env,
    scope: usize,
    tail: bool,
    depth: nat,
) -> Outcome
    decreases depth, 3int, 0int,
{
    let list = items(args);
    match form_arity("case"@, 1, usize::MAX, list.len()) {
        Some(fault) => (Err(fault), env),
        None => {
            let key = evaluate(unit, list[0], env, scope, false, depth);
            match key.0 {
                Err(fault) => (Err(fault), key.1),
                Ok(value) => case_from(unit, value, list, 1, key.1, scope, tail, depth),
            }
        },
    }
}

/// The name, the initial expression and the step, if any, of a variable
/// of `do`.
pub open spec fn variable_parts<U: RealUnit>(unit: &U, variable: Datum) -> Result<
    (Seq<char>, Datum, Option<Datum>),
    EvalErrorView,
> {
    let parts = items(variable);
    if (parts.len() == 2 || parts.len() == 3) && parts[0] is Symbol {
        Ok(
            (
                parts[0]->Symbol_0,
                parts[1],
                if parts.len() == 3 {
                    Some(parts[2])
                } else {
                    None
                },
            ),
        )
    } else {
        Err(type_fault(unit, variable, "binding"@))
    }
}

/// The values of the variables of `do` from `i` on, each with its name:
/// of the initial expressions where `stepping` is unset, else of the steps
/// of the variables that have one. They are evaluated in frame `scope`.
pub open spec fn do_values<U: RealUnit>(
    unit: &U,
    stepping: bool,
    variables: Seq<Datum>,
    i: int,
    env: Env,
    scope: usize,
    depth: nat,
) -> (Result<Seq<(Seq<char>, Val)>, EvalErrorView>, Env)
    decreases depth, 1int, variables.len() - i,
{
    if i < 0 || i >= variables.len() {
        (Ok(Seq::empty()), env)
    } else {
        match variable_parts(unit, variables[i]) {
            Err(fault) => (Err(fault), env),
            Ok((name, initial, step)) => if stepping && step is None {
                do_values(unit, stepping, variables, i + 1, env, scope, depth)
            } else {
                let first = evaluate(
                    unit,
                    if stepping {
                        step->Some_0
                    } else {
                        initial
                    },
                    env,
                    scope,
                    false,
                    depth,
                );
                match first.0 {
                    Err(fault) => (Err(fault), first.1),
                    Ok(value) => {
                        let rest = do_values(
                            unit,
                            stepping,
                            variables,
                            i + 1,
                            first.1,
                            scope,
                            depth,
                        );
                        match rest.0 {
                            Err(fault) => (Err(fault), rest.1),
                            Ok(values) => (Ok(seq![(name, value)] + values), rest.1),
                        }
                    },
                }
            },
        }
    }
}

/// The rounds of `do` in frame `inner`: where the test is true the
/// expressions after it give the value; else the body is evaluated, every
/// step is evaluated, the variables take the values of their steps, and
/// the next round begins, `rounds` times at most.
pub open spec fn do_loop<U: RealUnit>(
    unit: &U,
    variables: Seq<Datum>,
    clause: Seq<Datum>,
    list: Seq<Datum>,
    env: Env,
    inner: usize,
    depth: nat,
    rounds: nat,
) -> Outcome
    decreases depth, 2int, rounds,
{
    let test = evaluate(unit, clause[0], env, inner, false, depth);
    match test.0 {
        Err(fault) => (Err(fault), test.1),
        Ok(value) => if truthy(value) {
            evaluate_all(unit, clause, 1, test.1, inner, false, depth)
        } else {
            let body = evaluate_all(unit, list, 2, test.1, inner, false, depth);
            match body.0 {
                Err(fault) => (Err(fault), body.1),
                Ok(_) => {
                    let steps = do_values(unit, true, variables, 0, body.1, inner, depth);
                    match steps.0 {
                        Err(fault) => (Err(fault), steps.1),
                        Ok(pairs) => if rounds == 0 {
                            (Err(EvalErrorView::BudgetExhausted), steps.1)
                        } else {
                            do_loop(
                                unit,
                                variables,
                                clause,
                                list,
                                bound_all(steps.1, inner as int, pairs, 0),
                                inner,
                                depth,
                                (rounds - 1) as nat,
                            )
                        },
                    }
                },
            }
        },
    }
}

/// `(do ((name initial step) ...) (test x ...) body ...)`: the initial
/// expressions are evaluated in frame `scope`; a new frame under it binds
/// the names; then the rounds are made there.
pub open spec fn do_form<U: RealUnit>(
    unit: &U,
    args: Datum,
    env: Env,
    scope: usize,
    depth: nat,
) -> Outcome
    decreases depth, 3int, 0int,
{
    let list = items(args);
    match form_arity("do"@, 2, usize::MAX, list.len()) {
        Some(fault) => (Err(fault), env),
        None => if items(list[1]).len() == 0 {
            (Err(type_fault(unit, list[1], "clause"@)), env)
        } else {
            let values = do_values(unit, false, items(list[0]), 0, env, scope, depth);
            match values.0 {
                Err(fault) => (Err(fault), values.1),
                Ok(pairs) => {
                    let inner = values.1.scopes.len() as usize;
                    do_loop(
                        unit,
                        items(list[0]),
                        items(list[1]),
                        list,
                        bound_all(values.1.push(scope), inner as int, pairs, 0),
                        inner,
                        depth,
                        values.1.rounds as nat,
                    )
                },
            }
        },
    }
}

/// What evaluating a template gives: the expression built, or the fault,
/// and the store after it.
pub type Built = (Result<Datum, EvalErrorView>, Env);

/// The one operand of `(unquote x)` or `(unquote-splicing x)`, evaluated;
/// what it gives must be an expression.
pub open spec fn unquoted<U: RealUnit>(
    unit: &U,
    keyword: Seq<char>,
    operands: Datum,
    env: Env,
    scope: usize,
    depth: nat,
) -> Built
    decreases depth, 1int, 0int,
{
    match form_arity(keyword, 1, 1, items(operands).len()) {
        Some(fault) => (Err(fault), env),
        None => {
            let value = evaluate(unit, items(operands)[0], env, scope, false, depth);
            match value.0 {
                Err(fault) => (Err(fault), value.1),
                Ok(Val::Datum(d)) => (Ok(d), value.1),
                Ok(other) => (
                    Err(apply_fault(math::wrong_type(unit, other, "expression"@))),
                    value.1,
                ),
            }
        },
    }
}

/// Whether an expression is a form that begins with the keyword
/// `keyword`.
pub open spec fn begins_with(d: Datum, keyword: Seq<char>) -> bool {
    d matches Datum::Pair(car, _) && *car == Datum::Symbol(keyword)
}

/// The expression that the template `template` of `quasiquote` stands
/// for: it is built as it is written, but `(unquote x)` is replaced by the
/// value of `x`, and an element `(unquote-splicing x)` of a list by the
/// elements of the value of `x`.
pub open spec fn quasi<U: RealUnit>(
    unit: &U,
    template: Datum,
    env: Env,
    scope: usize,
    depth: nat,
) -> Built
    decreases depth, 2int, 0int, template, 0int,
{
    match template {
        Datum::Pair(car, cdr) => if *car == Datum::Symbol("unquote"@) {
            unquoted(unit, "unquote"@, *cdr, env, scope, depth)
        } else if begins_with(*car, "unquote-splicing"@) {
            let spliced = unquoted(
                unit,
                "unquote-splicing"@,
                after(*car, 1),
                env,
                scope,
                depth,
            );
            match spliced.0 {
                Err(fault) => (Err(fault), spliced.1),
                Ok(list) => {
                    let rest = quasi(unit, *cdr, spliced.1, scope, depth);
                    match rest.0 {
                        Err(fault) => (Err(fault), rest.1),
                        Ok(end) => (Ok(list_of(items(list), end)), rest.1),
                    }
                },
            }
        } else {
            let first = quasi(unit, *car, env, scope, depth);
            match first.0 {
                Err(fault) => (Err(fault), first.1),
                Ok(head) => {
                    let rest = quasi(unit, *cdr, first.1, scope, depth);
                    match rest.0 {
                        Err(fault) => (Err(fault), rest.1),
                        Ok(end) => (Ok(Datum::Pair(Box::new(head), Box::new(end))), rest.1),
                    }
                },
            }
        },
        Datum::Vector(slots) => {
            let built = quasi_items(unit, slots, 0, env, scope, depth);
            match built.0 {
                Err(fault) => (Err(fault), built.1),
                Ok(Datum::Vector(results)) => (Ok(Datum::Vector(results)), built.1),
                Ok(other) => (Ok(other), built.1),
            }
        },
        other => (Ok(other), env),
    }
}

/// The elements of a vector template from `i` on, each built in turn, as a
/// vector.
pub open spec fn quasi_items<U: RealUnit>(
    unit: &U,
    slots: Seq<Datum>,
    i: int,
    env: Env,
    scope: usize,
    depth: nat,
) -> Built
    decreases depth, 2int, 0int, slots, slots.len() - i,
{
    if i < 0 || i >= slots.len() {
        (Ok(Datum::Vector(Seq::empty())), env)
    } else {
        let first = quasi(unit, slots[i], env, scope, depth);
        match first.0 {
            Err(fault) => (Err(fault), first.1),
            Ok(head) => {
                let rest = quasi_items(unit, slots, i + 1, first.1, scope, depth);
                match rest.0 {
                    Err(fault) => (Err(fault), rest.1),
                    Ok(Datum::Vector(results)) => (Ok(Datum::Vector(seq![head] + results)), rest.1),
                    Ok(other) => (Ok(other), rest.1),
                }
            },
        }
    }
}

/// `(quasiquote template)`.
pub open spec fn quasiquote_form<U: RealUnit>(
    unit: &U,
    args: Datum,
    env: Env,
    scope: usize,
    depth: nat,
) -> Outcome
    decreases depth, 3int, 0int,
{
    match form_arity("quasiquote"@, 1, 1, items(args).len()) {
        Some(fault) => (Err(fault), env),
        None => {
            let built = quasi(unit, items(args)[0], env, scope, depth);
            match built.0 {
                Err(fault) => (Err(fault), built.1),
                Ok(d) => (Ok(Val::Datum(d)), built.1),
            }
        },
    }
}

/// What the special form `form` gives for the operands `args`, which are
/// not evaluated beforehand. The forms that have no rule report that.
pub open spec fn apply_form<U: RealUnit>(
    unit: &U,
    form: SpecialForm,
    args: Datum,
    env: Env,
    scope: usize,
    tail: bool,
    depth: nat,
) -> Outcome
    decreases depth, 4int, 0int,
{
    match form {
        SpecialForm::And => and_from(unit, items(args), 0, env, scope, tail, depth),
        SpecialForm::Begin => evaluate_all(unit, items(args), 0, env, scope, tail, depth),
        SpecialForm::Case => case_form(unit, args, env, scope, tail, depth),
        SpecialForm::Do => do_form(unit, args, env, scope, depth),
        SpecialForm::QuasiQuote => quasiquote_form(unit, args, env, scope, depth),
        SpecialForm::Cond => cond_from(unit, items(args), 0, env, scope, tail, depth),
        SpecialForm::Define => define_form(unit, args, env, scope, depth),
        SpecialForm::Delay => delay_form(unit, args, env, scope),
        SpecialForm::If => if_form(unit, args, env, scope, tail, depth),
        SpecialForm::Lambda => lambda_form(unit, args, env, scope),
        SpecialForm::Let => let_form(unit, args, env, scope, tail, depth),
        SpecialForm::LetRec => letrec_form(unit, args, env, scope, tail, depth),
        SpecialForm::LetStar => let_star_form(unit, "let*"@, args, env, scope, tail, depth),
        SpecialForm::Or => or_from(unit, items(args), 0, env, scope, tail, depth),
        SpecialForm::Quote => quote_form(unit, args, env),
        SpecialForm::Assign => set_form(unit, args, env, scope, depth),
        SpecialForm::Unless => when_form(unit, "unless"@, false, args, env, scope, tail, depth),
        SpecialForm::When => when_form(unit, "when"@, true, args, env, scope, tail, depth),
        other => (Err(EvalErrorView::Unimplemented(other.keyword())), env),
    }
}

/// The mathematical content of what an evaluating function returns, with
/// the store it left.
pub open spec fn outcome_of(result: Result<Value, EvalError>, env: Env) -> Outcome {
    match result {
        Ok(value) => (Ok(value@), env),
        Err(fault) => (Err(fault@), env),
    }
}

/// The mathematical content of the values that `eval_each` returns, with
/// the store it left.
pub open spec fn outcomes_of(result: Result<Vec<Value>, EvalError>, env: Env) -> Outcomes {
    match result {
        Ok(values) => (Ok(value_views(values@)), env),
        Err(fault) => (Err(fault@), env),
    }
}

impl SpecialForm {
    /// The special form that `name` is the keyword of.
    pub fn from_name(name: &str) -> (form: Option<SpecialForm>)
        ensures
            form == special_form(name@),
    {
        proof {
            reveal_with_fuel(form_from, 24);
        }
        if same_text(name, "and") {
            Some(SpecialForm::And)
        } else if same_text(name, "begin") {
            Some(SpecialForm::Begin)
        } else if same_text(name, "case") {
            Some(SpecialForm::Case)
        } else if same_text(name, "cond") {
            Some(SpecialForm::Cond)
        } else if same_text(name, "define") {
            Some(SpecialForm::Define)
        } else if same_text(name, "delay") {
            Some(SpecialForm::Delay)
        } else if same_text(name, "do") {
            Some(SpecialForm::Do)
        } else if same_text(name, "if") {
            Some(SpecialForm::If)
        } else if same_text(name, "lambda") {
            Some(SpecialForm::Lambda)
        } else if same_text(name, "let") {
            Some(SpecialForm::Let)
        } else if same_text(name, "letrec") {
            Some(SpecialForm::LetRec)
        } else if same_text(name, "letrec-syntax") {
            Some(SpecialForm::LetRecSyntax)
        } else if same_text(name, "let*") {
            Some(SpecialForm::LetStar)
        } else if same_text(name, "let-syntax") {
            Some(SpecialForm::LetSyntax)
        } else if same_text(name, "or") {
            Some(SpecialForm::Or)
        } else if same_text(name, "quasiquote") {
            Some(SpecialForm::QuasiQuote)
        } else if same_text(name, "quote") {
            Some(SpecialForm::Quote)
        } else if same_text(name, "set!") {
            Some(SpecialForm::Assign)
        } else if same_text(name, "syntax-rules") {
            Some(SpecialForm::SyntaxRules)
        } else if same_text(name, "unless") {
            Some(SpecialForm::Unless)
        } else if same_text(name, "unquote") {
            Some(SpecialForm::Unquote)
        } else if same_text(name, "unquote-splicing") {
            Some(SpecialForm::UnquoteSplicing)
        } else if same_text(name, "when") {
            Some(SpecialForm::When)
        } else {
            None
        }
    }

    /// The keyword of the form.
    pub fn name(&self) -> (name: &'static str)
        ensures
            name@ == self.keyword(),
    {
        match self {
            SpecialForm::And => "and",
            SpecialForm::Begin => "begin",
            SpecialForm::Case => "case",
            SpecialForm::Cond => "cond",
            SpecialForm::Define => "define",
            SpecialForm::Delay => "delay",
            SpecialForm::Do => "do",
            SpecialForm::If => "if",
            SpecialForm::Lambda => "lambda",
            SpecialForm::Let => "let",
            SpecialForm::LetRec => "letrec",
            SpecialForm::LetRecSyntax => "letrec-syntax",
            SpecialForm::LetStar => "let*",
            SpecialForm::LetSyntax => "let-syntax",
            SpecialForm::Or => "or",
            SpecialForm::QuasiQuote => "quasiquote",
            SpecialForm::Quote => "quote",
            SpecialForm::Assign => "set!",
            SpecialForm::SyntaxRules => "syntax-rules",
            SpecialForm::Unless => "unless",
            SpecialForm::Unquote => "unquote",
            SpecialForm::UnquoteSplicing => "unquote-splicing",
            SpecialForm::When => "when",
        }
    }
}

fn form_named(operator: &Link) -> (form: Option<SpecialForm>)
    ensures
        form == form_of(operator@),
{
    match operator.as_symbol() {
        Some(name) => SpecialForm::from_name(name),
        None => None,
    }
}

fn argument_error(fault: InvalidArgument) -> (error: EvalError)
    ensures
        error@ == argument_fault(fault@),
{
    EvalError::ApplyError(ApplyError::InvalidArgument(fault))
}

fn type_error<U: RealUnit>(unit: &U, link: &Link, expected: &str) -> (error: EvalError)
    requires
        unit_ready(unit),
    ensures
        error@ == type_fault(unit, link@, expected@),
{
    argument_error(InvalidArgument::InvalidType(link.to_string(unit), expected.to_owned()))
}

fn symbol_error<U: RealUnit>(unit: &U, link: &Link) -> (error: EvalError)
    requires
        unit_ready(unit),
    ensures
        error@ == type_fault(unit, link@, "symbol"@),
{
    argument_error(invalid_symbol(link.to_string(unit).as_str()))
}

fn check_form(name: &str, least: usize, most: usize, count: usize) -> (checked: Result<
    (),
    EvalError,
>)
    ensures
        match checked {
            Ok(_) => form_arity(name@, least, most, count as nat) is None,
            Err(fault) => form_arity(name@, least, most, count as nat) == Some(fault@),
        },
{
    match validate_number_of_arguments(name, least, most, count) {
        Ok(_) => Ok(()),
        Err(fault) => Err(argument_error(fault)),
    }
}

fn rest_after(args: &Link) -> (rest: Link)
    ensures
        rest@ == after(args@, 1),
{
    match args.as_pair() {
        Some(pair) => {
            assert(after(pair.cdr@, 0) == pair.cdr@);
            pair.cdr()
        },
        None => args.duplicate(),
    }
}

/// The mathematical content of the names that `names_of` returns.
pub open spec fn names_result(names: Result<Vec<String>, EvalError>) -> Result<
    Seq<Seq<char>>,
    EvalErrorView,
> {
    match names {
        Ok(names) => Ok(texts(names@)),
        Err(fault) => Err(fault@),
    }
}

fn names_of<U: RealUnit>(unit: &U, list: &Vec<Link>) -> (names: Result<Vec<String>, EvalError>)
    requires
        unit_ready(unit),
    ensures
        names_result(names) == formal_names(unit, link_views(list@), 0),
{
    let ghost views = link_views(list@);
    let mut names: Vec<String> = Vec::new();
    let mut index: usize = 0;
    assert(texts(names@) =~= Seq::<Seq<char>>::empty());
    while index < list.len()
        invariant
            unit_ready(unit),
            index <= list.len(),
            views == link_views(list@),
            texts(names@).len() == index,
            forall|j: int| 0 <= j < index ==> views[j] == Datum::Symbol(#[trigger] texts(names@)[j]),
        decreases list.len() - index,
    {
        match list[index].as_symbol() {
            Some(name) => {
                let ghost before = texts(names@);
                names.push(name.to_owned());
                assert(texts(names@) =~= before.push(name@));
            },
            None => {
                proof {
                    assert forall|j: int| 0 <= j < index implies (#[trigger] views[j]) is Symbol by {
                        assert(views[j] == Datum::Symbol(texts(names@)[j]));
                    }
                    lemma_formal_names_fault(unit, views, 0, index as int);
                }
                return Err(symbol_error(unit, &list[index]));
            },
        }
        index += 1;
    }
    proof {
        lemma_formal_names(unit, views, 0, texts(names@));
        assert(texts(names@).subrange(0, texts(names@).len() as int) =~= texts(names@));
    }
    Ok(names)
}

proof fn lemma_formal_names_fault<U: RealUnit>(unit: &U, list: Seq<Datum>, from: int, at: int)
    requires
        0 <= from <= at < list.len(),
        forall|j: int| from <= j < at ==> (#[trigger] list[j]) is Symbol,
        !(list[at] is Symbol),
    ensures
        formal_names(unit, list, from) == Err::<Seq<Seq<char>>, EvalErrorView>(
            type_fault(unit, list[at], "symbol"@),
        ),
    decreases at - from,
{
    if from < at {
        lemma_formal_names_fault(unit, list, from + 1, at);
    }
}

proof fn lemma_formal_names<U: RealUnit>(
    unit: &U,
    list: Seq<Datum>,
    from: int,
    names: Seq<Seq<char>>,
)
    requires
        0 <= from <= list.len(),
        names.len() == list.len(),
        forall|j: int| 0 <= j < list.len() ==> list[j] == Datum::Symbol(#[trigger] names[j]),
    ensures
        formal_names(unit, list, from) == Ok::<Seq<Seq<char>>, EvalErrorView>(
            names.subrange(from, names.len() as int),
        ),
    decreases list.len() - from,
{
    if from < list.len() {
        lemma_formal_names(unit, list, from + 1, names);
        assert(seq![names[from]] + names.subrange(from + 1, names.len() as int) =~= names.subrange(
            from,
            names.len() as int,
        ));
    } else {
        assert(names.subrange(from, names.len() as int) =~= Seq::<Seq<char>>::empty());
    }
    if from == 0 {
        assert(names.subrange(0, names.len() as int) =~= names);
    }
}

/// The mathematical content of the procedure that `make_lambda` returns.
pub open spec fn closure_result(made: Result<LambdaProcedure, EvalError>) -> Result<
    Closure,
    EvalErrorView,
> {
    match made {
        Ok(lambda) => Ok(lambda@),
        Err(fault) => Err(fault@),
    }
}

fn make_lambda<U: RealUnit>(
    unit: &U,
    formals: &Link,
    body: Link,
    name: Option<&str>,
    scope: usize,
) -> (made: Result<LambdaProcedure, EvalError>)
    requires
        unit_ready(unit),
    ensures
        closure_result(made) == closure(
            unit,
            formals@,
            body@,
            match name {
                Some(name) => Some(name@),
                None => None,
            },
            scope,
        ),
{
    let list = formals.iter();
    let names = match names_of(unit, &list) {
        Ok(names) => names,
        Err(fault) => {
            return Err(fault);
        },
    };
    let end = last_of(formals);
    let rest = match end.as_expression_content() {
        None => None,
        Some(content) => match content.as_symbol() {
            Some(rest) => Some(rest.to_owned()),
            None => {
                return Err(symbol_error(unit, &end));
            },
        },
    };
    let owned = match name {
        Some(name) => Some(name.to_owned()),
        None => None,
    };
    Ok(LambdaProcedure { name: owned, formals: names, rest, body, frame: scope })
}

fn last_of(list: &Link) -> (end: Link)
    ensures
        end@ == ending(list@),
        !(end@ is Pair),
{
    let mut cursor = list.duplicate();
    loop
        invariant
            ending(cursor@) == ending(list@),
        ensures
            ending(cursor@) == ending(list@),
            !(cursor@ is Pair),
        decreases cursor,
    {
        let next = match cursor.as_pair() {
            Some(pair) => pair.cdr(),
            None => {
                break ;
            },
        };
        cursor = next;
    }
    cursor
}

/// Evaluates `expression` in frame `scope` with `depth` levels of nesting
/// left.
pub fn eval_at<U: RealUnit>(
    expression: &Link,
    frame: &mut Frame,
    scope: usize,
    tail: bool,
    depth: usize,
    unit: &U,
) -> (result: Result<Value, EvalError>)
    requires
        unit_ready(unit),
    ensures
        outcome_of(result, final(frame)@) == evaluate(
            unit,
            expression@,
            old(frame)@,
            scope,
            tail,
            depth as nat,
        ),
    decreases depth, 0int, 0int,
{
    if depth == 0 {
        return Err(EvalError::BudgetExhausted);
    }
    match expression.as_expression_content() {
        None => Ok(Value::from_link(Link::Nil)),
        Some(content) => {
            match content.as_pair() {
                Some(pair) => {
                    return match form_named(&pair.car) {
                        Some(form) => apply_form_at(form, &pair.cdr, frame, scope, tail, depth - 1, unit),
                        None => if tail {
                            Ok(Value::Thunk(Thunk { content: expression.duplicate(), frame: scope }))
                        } else {
                            call_at(expression, frame, scope, depth - 1, unit)
                        },
                    };
                },
                None => {},
            }
            match content.as_symbol() {
                Some(name) => {
                    return match frame.lookup_from(scope, name) {
                        Some(Value::Uninitialized) => Err(
                            EvalError::UnknownIdentifier(name.to_owned()),
                        ),
                        Some(value) => Ok(value.duplicate()),
                        None => Err(EvalError::UnknownIdentifier(name.to_owned())),
                    };
                },
                None => {},
            }
            Ok(Value::from_link(expression.duplicate()))
        },
    }
}

/// Evaluates the expressions of `list` from `from` on, left to right.
pub fn eval_each<U: RealUnit>(
    list: &Vec<Link>,
    from: usize,
    frame: &mut Frame,
    scope: usize,
    depth: usize,
    unit: &U,
) -> (result: Result<Vec<Value>, EvalError>)
    requires
        unit_ready(unit),
    ensures
        outcomes_of(result, final(frame)@) == evaluate_each(
            unit,
            link_views(list@),
            from as int,
            old(frame)@,
            scope,
            depth as nat,
        ),
    decreases depth, 1int, list.len() - from,
{
    if from >= list.len() {
        let values: Vec<Value> = Vec::new();
        assert(value_views(values@) =~= Seq::<Val>::empty());
        return Ok(values);
    }
    let first = match eval_at(&list[from], frame, scope, false, depth, unit) {
        Ok(first) => first,
        Err(fault) => {
            return Err(fault);
        },
    };
    match eval_each(list, from + 1, frame, scope, depth, unit) {
        Ok(mut values) => {
            let ghost rest = value_views(values@);
            values.insert(0, first);
            assert(value_views(values@) =~= seq![first@] + rest);
            Ok(values)
        },
        Err(fault) => Err(fault),
    }
}

/// Evaluates the expressions of `list` from `from` on in order and gives
/// the value of the last.
pub fn eval_all_at<U: RealUnit>(
    list: &Vec<Link>,
    from: usize,
    frame: &mut Frame,
    scope: usize,
    tail: bool,
    depth: usize,
    unit: &U,
) -> (result: Result<Value, EvalError>)
    requires
        unit_ready(unit),
    ensures
        outcome_of(result, final(frame)@) == evaluate_all(
            unit,
            link_views(list@),
            from as int,
            old(frame)@,
            scope,
            tail,
            depth as nat,
        ),
    decreases depth, 1int, list.len() - from,
{
    if from >= list.len() {
        Ok(Value::Void)
    } else if from == list.len() - 1 {
        eval_at(&list[from], frame, scope, tail, depth, unit)
    } else {
        match eval_at(&list[from], frame, scope, false, depth, unit) {
            Ok(_) => eval_all_at(list, from + 1, frame, scope, tail, depth, unit),
            Err(fault) => Err(fault),
        }
    }
}

/// Makes the call `expression` in frame `scope`, and after it every call
/// in tail position that it leads to.
pub fn call_at<U: RealUnit>(
    expression: &Link,
    frame: &mut Frame,
    scope: usize,
    depth: usize,
    unit: &U,
) -> (result: Result<Value, EvalError>)
    requires
        unit_ready(unit),
    ensures
        outcome_of(result, final(frame)@) == call(
            unit,
            expression@,
            old(frame)@,
            scope,
            depth as nat,
            old(frame)@.rounds as nat,
        ),
    decreases depth, 5int, 0int,
{
    let mut current = expression.duplicate();
    let mut at = scope;
    let mut rounds = frame.rounds();
    let ghost goal = call(
        unit,
        expression@,
        old(frame)@,
        scope,
        depth as nat,
        old(frame)@.rounds as nat,
    );
    loop
        invariant
            unit_ready(unit),
            goal == call(
                unit,
                expression@,
                old(frame)@,
                scope,
                depth as nat,
                old(frame)@.rounds as nat,
            ),
            call(unit, current@, frame@, at, depth as nat, rounds as nat) == goal,
        decreases rounds,
    {
        let pair = match current.as_pair() {
            Some(pair) => pair,
            None => {
                return eval_at(&current, frame, at, false, depth, unit);
            },
        };
        let operator = match eval_at(&pair.car, frame, at, false, depth, unit) {
            Ok(operator) => operator,
            Err(fault) => {
                return Err(fault);
            },
        };
        let procedure = match operator {
            Value::Procedure(procedure) => procedure,
            other => {
                return Err(
                    EvalError::ApplyError(ApplyError::InvalidProcedure(other.to_string(unit))),
                );
            },
        };
        let list = pair.cdr.iter();
        let operands = match eval_each(&list, 0, frame, at, depth, unit) {
            Ok(operands) => operands,
            Err(fault) => {
                return Err(fault);
            },
        };
        match apply_at(&procedure, operands, frame, depth, unit) {
            Ok(Value::Thunk(thunk)) => {
                if rounds == 0 {
                    return Err(EvalError::BudgetExhausted);
                }
                rounds -= 1;
                at = thunk.frame;
                current = thunk.content;
            },
            other => {
                return other;
            },
        }
    }
}

/// Applies `procedure` to the operands `args`.
pub fn apply_at<U: RealUnit>(
    procedure: &Procedure,
    args: Vec<Value>,
    frame: &mut Frame,
    depth: usize,
    unit: &U,
) -> (result: Result<Value, EvalError>)
    requires
        unit_ready(unit),
    ensures
        outcome_of(result, final(frame)@) == apply(
            unit,
            procedure@,
            value_views(args@),
            old(frame)@,
            depth as nat,
        ),
    decreases depth, 4int, 0int,
{
    match procedure {
        Procedure::Builtin(builtin) => match apply_function(builtin.function, args, unit) {
            Ok(value) => Ok(value),
            Err(fault) => Err(EvalError::ApplyError(fault)),
        },
        Procedure::Graphic(graphic) => match frame.apply_graphic(graphic.function, args, unit) {
            Ok(value) => Ok(value),
            Err(fault) => Err(EvalError::ApplyError(fault)),
        },
        Procedure::Port(port) => match write_text(*port, &args, unit) {
            Ok(text) => {
                frame.write(text.as_str());
                Ok(Value::Void)
            },
            Err(fault) => Err(EvalError::ApplyError(fault)),
        },
        Procedure::Control(control) => {
            if depth == 0 {
                return Err(EvalError::BudgetExhausted);
            }
            match control {
                Control::Force => force_at(&args, frame, depth - 1, unit),
                Control::MapList => map_at(true, &args, frame, depth - 1, unit),
                Control::ForEach => map_at(false, &args, frame, depth - 1, unit),
            }
        },
        Procedure::Lambda(lambda) => apply_lambda_at(lambda, args, frame, depth, unit),
    }
}

/// The mathematical content of a text to write.
pub open spec fn written_of(text: Result<String, ApplyError>) -> Result<Seq<char>, ApplyErrorView> {
    match text {
        Ok(text) => Ok(text@),
        Err(fault) => Err(fault@),
    }
}

/// What a procedure of the output writes for the operands `args`.
pub fn write_text<U: RealUnit>(port: Port, args: &Vec<Value>, unit: &U) -> (text: Result<
    String,
    ApplyError,
>)
    requires
        unit_ready(unit),
    ensures
        written_of(text) == written(unit, port, value_views(args@)),
{
    match port {
        Port::Display => match math::check_arity(unit, "#[display]", 1, 1, args.len()) {
            Err(fault) => Err(fault),
            Ok(_) => match args[0].as_string() {
                Some(text) => Ok(text.to_owned()),
                None => Ok(args[0].to_string(unit)),
            },
        },
        Port::Newline => match math::check_arity(unit, "#[newline]", 0, 0, args.len()) {
            Err(fault) => Err(fault),
            Ok(_) => {
                let mut text = String::new();
                crate::text::push_char(&mut text, '\n');
                assert(text@ =~= seq!['\n']);
                Ok(text)
            },
        },
    }
}

/// Applies `procedure` and makes every call in tail position that it ends
/// in.
pub fn invoke_at<U: RealUnit>(
    procedure: &Procedure,
    args: Vec<Value>,
    frame: &mut Frame,
    depth: usize,
    unit: &U,
) -> (result: Result<Value, EvalError>)
    requires
        unit_ready(unit),
    ensures
        outcome_of(result, final(frame)@) == invoke(
            unit,
            procedure@,
            value_views(args@),
            old(frame)@,
            depth as nat,
        ),
    decreases depth, 6int, 0int,
{
    match apply_at(procedure, args, frame, depth, unit) {
        Ok(Value::Thunk(thunk)) => call_at(&thunk.content, frame, thunk.frame, depth, unit),
        other => other,
    }
}

/// `(force p)`.
pub fn force_at<U: RealUnit>(args: &Vec<Value>, frame: &mut Frame, depth: usize, unit: &U) -> (result:
    Result<Value, EvalError>)
    requires
        unit_ready(unit),
    ensures
        outcome_of(result, final(frame)@) == force(
            unit,
            value_views(args@),
            old(frame)@,
            depth as nat,
        ),
    decreases depth, 7int, 0int,
{
    match math::check_arity(unit, "#[force]", 1, 1, args.len()) {
        Err(fault) => {
            return Err(EvalError::ApplyError(fault));
        },
        Ok(_) => {},
    }
    match args[0].as_promise() {
        Some(promise) => eval_at(&promise.content, frame, promise.frame, false, depth, unit),
        None => Err(EvalError::ApplyError(math::invalid_type(unit, &args[0], "promise"))),
    }
}

/// The mathematical content of the slots that `map_each` returns, with
/// the store it left.
pub open spec fn mapped_of(result: Result<Vec<Link>, EvalError>, env: Env) -> (
    Result<Seq<Datum>, EvalErrorView>,
    Env,
) {
    match result {
        Ok(slots) => (Ok(link_views(slots@)), env),
        Err(fault) => (Err(fault@), env),
    }
}

/// The results `done`, followed by what the rest of the list gives.
pub open spec fn mapped_after(
    done: Seq<Datum>,
    rest: (Result<Seq<Datum>, EvalErrorView>, Env),
) -> (Result<Seq<Datum>, EvalErrorView>, Env) {
    match rest.0 {
        Ok(results) => (Ok(done + results), rest.1),
        Err(fault) => (Err(fault), rest.1),
    }
}

/// The results that one element adds to those after it.
pub open spec fn kept(collect: bool, value: Val) -> Seq<Datum> {
    match value {
        Val::Datum(d) => if collect {
            seq![d]
        } else {
            Seq::empty()
        },
        _ => Seq::empty(),
    }
}

proof fn lemma_map_step<U: RealUnit>(
    unit: &U,
    collect: bool,
    procedure: Val,
    elements: Seq<Datum>,
    i: int,
    env: Env,
    depth: nat,
)
    requires
        0 <= i < elements.len(),
    ensures
        ({
            let first = invoke(unit, procedure, seq![Val::Datum(elements[i])], env, depth);
            map_from(unit, collect, procedure, elements, i, env, depth) == match first.0 {
                Err(fault) => (Err::<Seq<Datum>, EvalErrorView>(fault), first.1),
                Ok(value) => if collect && !(value is Datum) {
                    (
                        Err::<Seq<Datum>, EvalErrorView>(
                            apply_fault(math::wrong_type(unit, value, "expression"@)),
                        ),
                        first.1,
                    )
                } else {
                    mapped_after(
                        kept(collect, value),
                        map_from(unit, collect, procedure, elements, i + 1, first.1, depth),
                    )
                },
            }
        }),
{
    let first = invoke(unit, procedure, seq![Val::Datum(elements[i])], env, depth);
    match first.0 {
        Ok(value) => {
            let rest = map_from(unit, collect, procedure, elements, i + 1, first.1, depth);
            match rest.0 {
                Ok(results) => {
                    assert(Seq::<Datum>::empty() + results =~= results);
                },
                Err(_) => {},
            }
        },
        Err(_) => {},
    }
}

proof fn lemma_mapped_twice(
    done: Seq<Datum>,
    more: Seq<Datum>,
    rest: (Result<Seq<Datum>, EvalErrorView>, Env),
)
    ensures
        mapped_after(done, mapped_after(more, rest)) == mapped_after(done + more, rest),
{
    match rest.0 {
        Ok(results) => {
            assert(done + (more + results) =~= (done + more) + results);
        },
        Err(_) => {},
    }
}

fn map_each<U: RealUnit>(
    collect: bool,
    procedure: &Procedure,
    elements: &Vec<Link>,
    from: usize,
    frame: &mut Frame,
    depth: usize,
    unit: &U,
) -> (result: Result<Vec<Link>, EvalError>)
    requires
        unit_ready(unit),
        from <= elements.len(),
    ensures
        mapped_of(result, final(frame)@) == map_from(
            unit,
            collect,
            procedure@,
            link_views(elements@),
            from as int,
            old(frame)@,
            depth as nat,
        ),
    decreases depth, 7int, elements.len() - from,
{
    let ghost views = link_views(elements@);
    let ghost goal = map_from(
        unit,
        collect,
        procedure@,
        views,
        from as int,
        old(frame)@,
        depth as nat,
    );
    let mut slots: Vec<Link> = Vec::new();
    let mut index = from;
    proof {
        assert(link_views(slots@) =~= Seq::<Datum>::empty());
        match goal.0 {
            Ok(results) => {
                assert(Seq::<Datum>::empty() + results =~= results);
            },
            Err(_) => {},
        }
    }
    while index < elements.len()
        invariant
            unit_ready(unit),
            from <= index <= elements.len(),
            views == link_views(elements@),
            goal == map_from(
                unit,
                collect,
                procedure@,
                views,
                from as int,
                old(frame)@,
                depth as nat,
            ),
            mapped_after(
                link_views(slots@),
                map_from(unit, collect, procedure@, views, index as int, frame@, depth as nat),
            ) == goal,
        decreases elements.len() - index,
    {
        let ghost done = link_views(slots@);
        let ghost before = frame@;
        let mut operands: Vec<Value> = Vec::new();
        operands.push(Value::from_link(elements[index].duplicate()));
        assert(value_views(operands@) =~= seq![Val::Datum(views[index as int])]);
        proof {
            lemma_map_step(unit, collect, procedure@, views, index as int, before, depth as nat);
        }
        let applied = invoke_at(procedure, operands, frame, depth, unit);
        let ghost rest = map_from(
            unit,
            collect,
            procedure@,
            views,
            index + 1,
            frame@,
            depth as nat,
        );
        match applied {
            Ok(Value::Expression(expression)) => {
                proof {
                    lemma_mapped_twice(done, kept(collect, Val::Datum(expression@)), rest);
                }
                if collect {
                    let ghost head = expression@;
                    slots.push(expression.content);
                    assert(link_views(slots@) =~= done + seq![head]);
                } else {
                    assert(done + Seq::<Datum>::empty() =~= done);
                }
            },
            Ok(other) => {
                if collect {
                    return Err(
                        EvalError::ApplyError(math::invalid_type(unit, &other, "expression")),
                    );
                }
                proof {
                    lemma_mapped_twice(done, kept(collect, other@), rest);
                    assert(done + Seq::<Datum>::empty() =~= done);
                }
            },
            Err(fault) => {
                return Err(fault);
            },
        }
        index += 1;
    }
    assert(link_views(slots@) + Seq::<Datum>::empty() =~= link_views(slots@));
    Ok(slots)
}

/// `(map f l)` where `collect` is set, `(for-each f l)` where it is not.
pub fn map_at<U: RealUnit>(
    collect: bool,
    args: &Vec<Value>,
    frame: &mut Frame,
    depth: usize,
    unit: &U,
) -> (result: Result<Value, EvalError>)
    requires
        unit_ready(unit),
    ensures
        outcome_of(result, final(frame)@) == map_list(
            unit,
            collect,
            value_views(args@),
            old(frame)@,
            depth as nat,
        ),
    decreases depth, 8int, 0int,
{
    let label = if collect {
        "#[map]"
    } else {
        "#[for-each]"
    };
    match math::check_arity(unit, label, 2, 2, args.len()) {
        Err(fault) => {
            return Err(EvalError::ApplyError(fault));
        },
        Ok(_) => {},
    }
    let procedure = match args[0].as_procedure() {
        Some(procedure) => procedure,
        None => {
            return Err(
                EvalError::ApplyError(ApplyError::InvalidProcedure(args[0].to_string(unit))),
            );
        },
    };
    let list = match &args[1] {
        Value::Expression(expression) => &expression.content,
        _ => {
            return Err(EvalError::ApplyError(math::invalid_type(unit, &args[1], "list")));
        },
    };
    let elements = list.iter();
    match map_each(collect, procedure, &elements, 0, frame, depth, unit) {
        Ok(slots) => {
            if collect {
                Ok(Value::from_link(build_list(&slots, Link::Nil)))
            } else {
                Ok(Value::Void)
            }
        },
        Err(fault) => Err(fault),
    }
}

/// Applies a provided procedure to the operands `args`.
pub fn apply_function<U: RealUnit>(function: Builtin, args: Vec<Value>, unit: &U) -> (result: Result<
    Value,
    ApplyError,
>)
    requires
        unit_ready(unit),
    ensures
        math::applied_of(result) == apply_builtin(unit, function, value_views(args@)),
{
    match function {
        Builtin::Add => math::add(args, unit),
        Builtin::Sub => math::sub(args, unit),
        Builtin::Mul => math::mul(args, unit),
        Builtin::Div => math::div(args, unit),
        Builtin::MathEqual => math::equal(args, unit),
        Builtin::LessThan => math::less_than(args, unit),
        Builtin::LessThanOrEqual => math::less_than_or_equal(args, unit),
        Builtin::GreaterThan => math::greater_than(args, unit),
        Builtin::GreaterThanOrEqual => math::greater_than_or_equal(args, unit),
        Builtin::IsPair => pair::is_pair(args, unit),
        Builtin::Car => pair::car(args, unit),
        Builtin::Cdr => pair::cdr(args, unit),
        Builtin::Cons => pair::cons(args, unit),
        Builtin::IsNull => pair::is_null(args, unit),
        Builtin::List => pair::list(args, unit),
        Builtin::Length => pair::length(args, unit),
        Builtin::Not => pair::not(args, unit),
        Builtin::IsNumber => pair::is_kind(Kind::Number, args, unit),
        Builtin::IsSymbol => pair::is_kind(Kind::Symbol, args, unit),
        Builtin::IsString => pair::is_kind(Kind::String, args, unit),
        Builtin::IsBoolean => pair::is_kind(Kind::Boolean, args, unit),
        Builtin::IsProcedure => pair::is_kind(Kind::Procedure, args, unit),
        Builtin::IsVector => pair::is_kind(Kind::Vector, args, unit),
        Builtin::Abs => math::abs(args, unit),
        Builtin::Min => math::extreme(false, args, unit),
        Builtin::Max => math::extreme(true, args, unit),
        Builtin::Quotient => math::divide_integers(math::Division::Quotient, args, unit),
        Builtin::Remainder => math::divide_integers(math::Division::Remainder, args, unit),
        Builtin::Modulo => math::divide_integers(math::Division::Modulo, args, unit),
        Builtin::Expt => math::expt(args, unit),
        Builtin::IsInteger => pair::is_kind(Kind::Integer, args, unit),
        Builtin::IsReal => pair::is_kind(Kind::Real, args, unit),
        Builtin::IsComplex => pair::is_kind(Kind::Complex, args, unit),
        Builtin::Append => sequence::append(args, unit),
        Builtin::Reverse => sequence::reverse(args, unit),
        Builtin::ListRef => sequence::list_ref(args, unit),
        Builtin::ListTail => sequence::list_tail(args, unit),
        Builtin::IsEq => sequence::alike("#[eq?]", args, unit),
        Builtin::IsEqv => sequence::alike("#[eqv?]", args, unit),
        Builtin::IsEqual => sequence::alike("#[equal?]", args, unit),
        Builtin::StringLength => sequence::string_length(args, unit),
        Builtin::StringRef => sequence::string_ref(args, unit),
        Builtin::Substring => sequence::substring(args, unit),
        Builtin::StringAppend => sequence::string_append(args, unit),
        Builtin::StringToSymbol => sequence::string_to_symbol(args, unit),
        Builtin::SymbolToString => sequence::symbol_to_string(args, unit),
        Builtin::MakeVector => sequence::make_vector(args, unit),
        Builtin::Vector => sequence::vector(args, unit),
        Builtin::VectorLength => sequence::vector_length(args, unit),
        Builtin::VectorRef => sequence::vector_ref(args, unit),
        Builtin::VectorToList => sequence::vector_to_list(args, unit),
        Builtin::ListToVector => sequence::list_to_vector(args, unit),
    }
}

/// Applies a procedure made by `lambda` to the operands `args`.
pub fn apply_lambda_at<U: RealUnit>(
    lambda: &LambdaProcedure,
    args: Vec<Value>,
    frame: &mut Frame,
    depth: usize,
    unit: &U,
) -> (result: Result<Value, EvalError>)
    requires
        unit_ready(unit),
    ensures
        outcome_of(result, final(frame)@) == apply_lambda(
            unit,
            lambda@,
            value_views(args@),
            old(frame)@,
            depth as nat,
        ),
    decreases depth, 3int, 0int,
{
    let ghost formals = texts(lambda.formals@);
    let ghost operands = value_views(args@);
    let count = lambda.formals.len();
    let most = if lambda.rest.is_some() {
        usize::MAX
    } else {
        count
    };
    let checked = match &lambda.name {
        Some(name) => validate_number_of_arguments(name.as_str(), count, most, args.len()),
        None => validate_number_of_arguments("#[lambda]", count, most, args.len()),
    };
    match checked {
        Ok(_) => {},
        Err(fault) => {
            return Err(argument_error(fault));
        },
    }
    let scope = frame.push_scope(lambda.frame);
    let ghost pushed = frame@;
    let mut index: usize = 0;
    while index < count
        invariant
            index <= count,
            count <= args.len(),
            count == lambda.formals@.len(),
            formals == texts(lambda.formals@),
            operands == value_views(args@),
            bound(frame@, scope as int, formals, operands, index as int) == bound(
                pushed,
                scope as int,
                formals,
                operands,
                0,
            ),
        decreases count - index,
    {
        frame.define_in(scope, lambda.formals[index].as_str(), args[index].duplicate());
        index += 1;
    }
    match &lambda.rest {
        None => {},
        Some(rest) => match pair::slots_of(&args, count, unit) {
            Ok(slots) => {
                frame.define_in(scope, rest.as_str(), Value::from_link(build_list(&slots, Link::Nil)));
            },
            Err(fault) => {
                return Err(EvalError::ApplyError(fault));
            },
        },
    }
    let body = lambda.body.iter();
    eval_all_at(&body, 0, frame, scope, true, depth, unit)
}

/// `(quote x)`.
pub fn do_quote_form<U: RealUnit>(args: &Link, frame: &mut Frame, unit: &U) -> (result: Result<
    Value,
    EvalError,
>)
    requires
        unit_ready(unit),
    ensures
        outcome_of(result, final(frame)@) == quote_form(unit, args@, old(frame)@),
{
    let list = args.iter();
    match check_form("quote", 1, 1, list.len()) {
        Err(fault) => Err(fault),
        Ok(_) => Ok(Value::from_link(list[0].duplicate())),
    }
}

/// `(if test then else)`.
pub fn do_if_form<U: RealUnit>(
    args: &Link,
    frame: &mut Frame,
    scope: usize,
    tail: bool,
    depth: usize,
    unit: &U,
) -> (result: Result<Value, EvalError>)
    requires
        unit_ready(unit),
    ensures
        outcome_of(result, final(frame)@) == if_form(
            unit,
            args@,
            old(frame)@,
            scope,
            tail,
            depth as nat,
        ),
    decreases depth, 2int, 0int,
{
    let list = args.iter();
    match check_form("if", 2, 3, list.len()) {
        Err(fault) => {
            return Err(fault);
        },
        Ok(_) => {},
    }
    let test = match eval_at(&list[0], frame, scope, false, depth, unit) {
        Ok(test) => test,
        Err(fault) => {
            return Err(fault);
        },
    };
    if test.is_true() {
        eval_at(&list[1], frame, scope, tail, depth, unit)
    } else if list.len() == 3 {
        eval_at(&list[2], frame, scope, tail, depth, unit)
    } else {
        Ok(Value::Void)
    }
}

/// `(define name x)` and `(define (name formals...) body...)`.
pub fn do_define_form<U: RealUnit>(
    args: &Link,
    frame: &mut Frame,
    scope: usize,
    depth: usize,
    unit: &U,
) -> (result: Result<Value, EvalError>)
    requires
        unit_ready(unit),
    ensures
        outcome_of(result, final(frame)@) == define_form(
            unit,
            args@,
            old(frame)@,
            scope,
            depth as nat,
        ),
    decreases depth, 2int, 0int,
{
    let list = args.iter();
    match check_form("define", 2, usize::MAX, list.len()) {
        Err(fault) => {
            return Err(fault);
        },
        Ok(_) => {},
    }
    match list[0].as_symbol() {
        Some(name) => {
            match check_form("define", 2, 2, list.len()) {
                Err(fault) => {
                    return Err(fault);
                },
                Ok(_) => {},
            }
            let value = match eval_at(&list[1], frame, scope, false, depth, unit) {
                Ok(value) => value,
                Err(fault) => {
                    return Err(fault);
                },
            };
            frame.define_in(scope, name, value);
            return Ok(Value::Void);
        },
        None => {},
    }
    match list[0].as_pair() {
        Some(signature) => match signature.car.as_symbol() {
            Some(name) => {
                let made = match make_lambda(
                    unit,
                    &signature.cdr,
                    rest_after(args),
                    Some(name),
                    scope,
                ) {
                    Ok(made) => made,
                    Err(fault) => {
                        return Err(fault);
                    },
                };
                frame.define_in(scope, name, Value::Procedure(Procedure::Lambda(made)));
                Ok(Value::Void)
            },
            None => Err(symbol_error(unit, &signature.car)),
        },
        None => Err(type_error(unit, &list[0], "symbol or pair")),
    }
}

/// `(lambda formals body...)`.
pub fn do_lambda_form<U: RealUnit>(args: &Link, frame: &mut Frame, scope: usize, unit: &U) -> (result:
    Result<Value, EvalError>)
    requires
        unit_ready(unit),
    ensures
        outcome_of(result, final(frame)@) == lambda_form(unit, args@, old(frame)@, scope),
{
    let list = args.iter();
    match check_form("lambda", 2, usize::MAX, list.len()) {
        Err(fault) => {
            return Err(fault);
        },
        Ok(_) => {},
    }
    match make_lambda(unit, &list[0], rest_after(args), None, scope) {
        Ok(made) => Ok(Value::Procedure(Procedure::Lambda(made))),
        Err(fault) => Err(fault),
    }
}

/// `(begin x ...)`.
pub fn do_begin_form<U: RealUnit>(
    args: &Link,
    frame: &mut Frame,
    scope: usize,
    tail: bool,
    depth: usize,
    unit: &U,
) -> (result: Result<Value, EvalError>)
    requires
        unit_ready(unit),
    ensures
        outcome_of(result, final(frame)@) == evaluate_all(
            unit,
            items(args@),
            0,
            old(frame)@,
            scope,
            tail,
            depth as nat,
        ),
    decreases depth, 2int, 0int,
{
    let list = args.iter();
    eval_all_at(&list, 0, frame, scope, tail, depth, unit)
}

/// `(set! name x)`.
pub fn do_set_form<U: RealUnit>(
    args: &Link,
    frame: &mut Frame,
    scope: usize,
    depth: usize,
    unit: &U,
) -> (result: Result<Value, EvalError>)
    requires
        unit_ready(unit),
    ensures
        outcome_of(result, final(frame)@) == set_form(
            unit,
            args@,
            old(frame)@,
            scope,
            depth as nat,
        ),
    decreases depth, 2int, 0int,
{
    let list = args.iter();
    match check_form("set!", 2, 2, list.len()) {
        Err(fault) => {
            return Err(fault);
        },
        Ok(_) => {},
    }
    let name = match list[0].as_symbol() {
        Some(name) => name,
        None => {
            return Err(symbol_error(unit, &list[0]));
        },
    };
    let value = match eval_at(&list[1], frame, scope, false, depth, unit) {
        Ok(value) => value,
        Err(fault) => {
            return Err(fault);
        },
    };
    match frame.home_of(scope, name) {
        Some(home) => {
            frame.define_in(home, name, value);
            Ok(Value::Void)
        },
        None => Err(EvalError::UnknownIdentifier(name.to_owned())),
    }
}

/// The mathematical content of the parts of a binding.
pub open spec fn parts_result(parts: Result<(String, Link), EvalError>) -> Result<
    (Seq<char>, Datum),
    EvalErrorView,
> {
    match parts {
        Ok((name, initial)) => Ok((name@, initial@)),
        Err(fault) => Err(fault@),
    }
}

fn parts_of<U: RealUnit>(unit: &U, binding: &Link) -> (parts: Result<(String, Link), EvalError>)
    requires
        unit_ready(unit),
    ensures
        parts_result(parts) == binding_parts(unit, binding@),
{
    let list = binding.iter();
    if list.len() == 2 {
        match list[0].as_symbol() {
            Some(name) => {
                return Ok((name.to_owned(), list[1].duplicate()));
            },
            None => {},
        }
    }
    Err(type_error(unit, binding, "binding"))
}

/// The models of a run of names with their values.
pub open spec fn pair_views(pairs: Seq<(String, Value)>) -> Seq<(Seq<char>, Val)> {
    Seq::new(pairs.len(), |i: int| (pairs[i].0@, pairs[i].1@))
}

/// The mathematical content of what `let_values_at` returns, with the
/// store it left.
pub open spec fn pairs_of(result: Result<Vec<(String, Value)>, EvalError>, env: Env) -> (
    Result<Seq<(Seq<char>, Val)>, EvalErrorView>,
    Env,
) {
    match result {
        Ok(pairs) => (Ok(pair_views(pairs@)), env),
        Err(fault) => (Err(fault@), env),
    }
}

fn let_values_at<U: RealUnit>(
    bindings: &Vec<Link>,
    from: usize,
    frame: &mut Frame,
    scope: usize,
    depth: usize,
    unit: &U,
) -> (result: Result<Vec<(String, Value)>, EvalError>)
    requires
        unit_ready(unit),
    ensures
        pairs_of(result, final(frame)@) == let_values(
            unit,
            link_views(bindings@),
            from as int,
            old(frame)@,
            scope,
            depth as nat,
        ),
    decreases depth, 1int, bindings.len() - from,
{
    if from >= bindings.len() {
        let pairs: Vec<(String, Value)> = Vec::new();
        assert(pair_views(pairs@) =~= Seq::<(Seq<char>, Val)>::empty());
        return Ok(pairs);
    }
    let (name, initial) = match parts_of(unit, &bindings[from]) {
        Ok(parts) => parts,
        Err(fault) => {
            return Err(fault);
        },
    };
    let value = match eval_at(&initial, frame, scope, false, depth, unit) {
        Ok(value) => value,
        Err(fault) => {
            return Err(fault);
        },
    };
    match let_values_at(bindings, from + 1, frame, scope, depth, unit) {
        Ok(mut pairs) => {
            let ghost rest = pair_views(pairs@);
            let ghost first = (name@, value@);
            pairs.insert(0, (name, value));
            assert(pair_views(pairs@) =~= seq![first] + rest);
            Ok(pairs)
        },
        Err(fault) => Err(fault),
    }
}

fn let_sequence_at<U: RealUnit>(
    bindings: &Vec<Link>,
    from: usize,
    frame: &mut Frame,
    scope: usize,
    depth: usize,
    unit: &U,
) -> (result: Result<(), EvalError>)
    requires
        unit_ready(unit),
    ensures
        match result {
            Ok(_) => let_sequence(
                unit,
                link_views(bindings@),
                from as int,
                old(frame)@,
                scope,
                depth as nat,
            ) == (Ok::<(), EvalErrorView>(()), final(frame)@),
            Err(fault) => let_sequence(
                unit,
                link_views(bindings@),
                from as int,
                old(frame)@,
                scope,
                depth as nat,
            ) == (Err::<(), EvalErrorView>(fault@), final(frame)@),
        },
    decreases depth, 1int, bindings.len() - from,
{
    if from >= bindings.len() {
        return Ok(());
    }
    let (name, initial) = match parts_of(unit, &bindings[from]) {
        Ok(parts) => parts,
        Err(fault) => {
            return Err(fault);
        },
    };
    let value = match eval_at(&initial, frame, scope, false, depth, unit) {
        Ok(value) => value,
        Err(fault) => {
            return Err(fault);
        },
    };
    frame.define_in(scope, name.as_str(), value);
    let_sequence_at(bindings, from + 1, frame, scope, depth, unit)
}

/// `(let ((name x) ...) body...)`.
pub fn do_let_form<U: RealUnit>(
    args: &Link,
    frame: &mut Frame,
    scope: usize,
    tail: bool,
    depth: usize,
    unit: &U,
) -> (result: Result<Value, EvalError>)
    requires
        unit_ready(unit),
    ensures
        outcome_of(result, final(frame)@) == let_form(
            unit,
            args@,
            old(frame)@,
            scope,
            tail,
            depth as nat,
        ),
    decreases depth, 2int, 0int,
{
    let list = args.iter();
    match check_form("let", 2, usize::MAX, list.len()) {
        Err(fault) => {
            return Err(fault);
        },
        Ok(_) => {},
    }
    let bindings = list[0].iter();
    let pairs = match let_values_at(&bindings, 0, frame, scope, depth, unit) {
        Ok(pairs) => pairs,
        Err(fault) => {
            return Err(fault);
        },
    };
    let inner = frame.push_scope(scope);
    bind_all(frame, inner, &pairs);
    eval_all_at(&list, 1, frame, inner, tail, depth, unit)
}

fn names_of_bindings<U: RealUnit>(unit: &U, bindings: &Vec<Link>) -> (names: Result<
    Vec<String>,
    EvalError,
>)
    requires
        unit_ready(unit),
    ensures
        names_result(names) == binding_names(unit, link_views(bindings@), 0),
{
    let ghost views = link_views(bindings@);
    let ghost goal = binding_names(unit, views, 0);
    let mut names: Vec<String> = Vec::new();
    let mut index = bindings.len();
    assert(texts(names@) =~= Seq::<Seq<char>>::empty());
    let mut probe: usize = 0;
    while probe < bindings.len()
        invariant
            unit_ready(unit),
            probe <= bindings.len(),
            views == link_views(bindings@),
            forall|j: int| 0 <= j < probe ==> binding_parts(unit, #[trigger] views[j]) is Ok,
        decreases bindings.len() - probe,
    {
        match parts_of(unit, &bindings[probe]) {
            Ok(_) => {},
            Err(fault) => {
                proof {
                    lemma_binding_names_fault(unit, views, 0, probe as int);
                }
                return Err(fault);
            },
        }
        probe += 1;
    }
    while index > 0
        invariant
            unit_ready(unit),
            index <= bindings.len(),
            views == link_views(bindings@),
            forall|j: int| 0 <= j < views.len() ==> binding_parts(unit, #[trigger] views[j]) is Ok,
            binding_names(unit, views, index as int) == Ok::<Seq<Seq<char>>, EvalErrorView>(
                texts(names@),
            ),
        decreases index,
    {
        index -= 1;
        let ghost before = texts(names@);
        match parts_of(unit, &bindings[index]) {
            Ok((name, _)) => {
                let ghost first = name@;
                names.insert(0, name);
                assert(texts(names@) =~= seq![first] + before);
            },
            Err(_) => {},
        }
    }
    Ok(names)
}

proof fn lemma_binding_names_fault<U: RealUnit>(unit: &U, bindings: Seq<Datum>, from: int, at: int)
    requires
        0 <= from <= at < bindings.len(),
        forall|j: int| from <= j < at ==> binding_parts(unit, #[trigger] bindings[j]) is Ok,
        binding_parts(unit, bindings[at]) is Err,
    ensures
        binding_names(unit, bindings, from) == Err::<Seq<Seq<char>>, EvalErrorView>(
            binding_parts(unit, bindings[at])->Err_0,
        ),
    decreases at - from,
{
    if from < at {
        lemma_binding_names_fault(unit, bindings, from + 1, at);
    }
}

/// `(letrec ((name x) ...) body...)`.
pub fn do_letrec_form<U: RealUnit>(
    args: &Link,
    frame: &mut Frame,
    scope: usize,
    tail: bool,
    depth: usize,
    unit: &U,
) -> (result: Result<Value, EvalError>)
    requires
        unit_ready(unit),
    ensures
        outcome_of(result, final(frame)@) == letrec_form(
            unit,
            args@,
            old(frame)@,
            scope,
            tail,
            depth as nat,
        ),
    decreases depth, 2int, 0int,
{
    let list = args.iter();
    match check_form("letrec", 2, usize::MAX, list.len()) {
        Err(fault) => {
            return Err(fault);
        },
        Ok(_) => {},
    }
    let bindings = list[0].iter();
    let names = match names_of_bindings(unit, &bindings) {
        Ok(names) => names,
        Err(fault) => {
            return Err(fault);
        },
    };
    let inner = frame.push_scope(scope);
    let ghost pushed = frame@;
    let ghost views = texts(names@);
    let mut index: usize = 0;
    while index < names.len()
        invariant
            index <= names.len(),
            views == texts(names@),
            marked(frame@, inner as int, views, index as int) == marked(
                pushed,
                inner as int,
                views,
                0,
            ),
        decreases names.len() - index,
    {
        frame.define_in(inner, names[index].as_str(), Value::Uninitialized);
        index += 1;
    }
    match let_sequence_at(&bindings, 0, frame, inner, depth, unit) {
        Ok(_) => {},
        Err(fault) => {
            return Err(fault);
        },
    }
    eval_all_at(&list, 1, frame, inner, tail, depth, unit)
}

/// `(let* ...)`.
pub fn do_let_star_form<U: RealUnit>(
    keyword: &str,
    args: &Link,
    frame: &mut Frame,
    scope: usize,
    tail: bool,
    depth: usize,
    unit: &U,
) -> (result: Result<Value, EvalError>)
    requires
        unit_ready(unit),
    ensures
        outcome_of(result, final(frame)@) == let_star_form(
            unit,
            keyword@,
            args@,
            old(frame)@,
            scope,
            tail,
            depth as nat,
        ),
    decreases depth, 2int, 0int,
{
    let list = args.iter();
    match check_form(keyword, 2, usize::MAX, list.len()) {
        Err(fault) => {
            return Err(fault);
        },
        Ok(_) => {},
    }
    let bindings = list[0].iter();
    let inner = frame.push_scope(scope);
    match let_sequence_at(&bindings, 0, frame, inner, depth, unit) {
        Ok(_) => {},
        Err(fault) => {
            return Err(fault);
        },
    }
    eval_all_at(&list, 1, frame, inner, tail, depth, unit)
}

/// `(when test body...)` and `(unless test body...)`.
pub fn do_when_form<U: RealUnit>(
    keyword: &str,
    wanted: bool,
    args: &Link,
    frame: &mut Frame,
    scope: usize,
    tail: bool,
    depth: usize,
    unit: &U,
) -> (result: Result<Value, EvalError>)
    requires
        unit_ready(unit),
    ensures
        outcome_of(result, final(frame)@) == when_form(
            unit,
            keyword@,
            wanted,
            args@,
            old(frame)@,
            scope,
            tail,
            depth as nat,
        ),
    decreases depth, 2int, 0int,
{
    let list = args.iter();
    match check_form(keyword, 1, usize::MAX, list.len()) {
        Err(fault) => {
            return Err(fault);
        },
        Ok(_) => {},
    }
    let test = match eval_at(&list[0], frame, scope, false, depth, unit) {
        Ok(test) => test,
        Err(fault) => {
            return Err(fault);
        },
    };
    if test.is_true() == wanted {
        eval_all_at(&list, 1, frame, scope, tail, depth, unit)
    } else {
        Ok(Value::Void)
    }
}

/// `(delay x)`.
pub fn do_delay_form<U: RealUnit>(args: &Link, frame: &mut Frame, scope: usize, unit: &U) -> (result:
    Result<Value, EvalError>)
    requires
        unit_ready(unit),
    ensures
        outcome_of(result, final(frame)@) == delay_form(unit, args@, old(frame)@, scope),
{
    let list = args.iter();
    match check_form("delay", 1, 1, list.len()) {
        Err(fault) => Err(fault),
        Ok(_) => Ok(
            Value::from_link(
                Link::from_content(
                    crate::data_model::ExpressionContent::Promise(
                        crate::data_model::Promise { content: list[0].duplicate(), frame: scope },
                    ),
                ),
            ),
        ),
    }
}

/// The clauses of `cond` from `from` on.
pub fn do_cond_form<U: RealUnit>(
    clauses: &Vec<Link>,
    from: usize,
    frame: &mut Frame,
    scope: usize,
    tail: bool,
    depth: usize,
    unit: &U,
) -> (result: Result<Value, EvalError>)
    requires
        unit_ready(unit),
    ensures
        outcome_of(result, final(frame)@) == cond_from(
            unit,
            link_views(clauses@),
            from as int,
            old(frame)@,
            scope,
            tail,
            depth as nat,
        ),
    decreases depth, 2int, clauses.len() - from,
{
    if from >= clauses.len() {
        return Ok(Value::Void);
    }
    let parts = clauses[from].iter();
    if parts.len() == 0 {
        return Err(type_error(unit, &clauses[from], "clause"));
    }
    let otherwise = match parts[0].as_symbol() {
        Some(name) => same_text(name, "else"),
        None => false,
    };
    if otherwise {
        return eval_all_at(&parts, 1, frame, scope, tail, depth, unit);
    }
    let test = match eval_at(&parts[0], frame, scope, false, depth, unit) {
        Ok(test) => test,
        Err(fault) => {
            return Err(fault);
        },
    };
    if test.is_true() {
        if parts.len() == 1 {
            Ok(test)
        } else {
            eval_all_at(&parts, 1, frame, scope, tail, depth, unit)
        }
    } else {
        do_cond_form(clauses, from + 1, frame, scope, tail, depth, unit)
    }
}

/// The expressions of `and` from `from` on.
pub fn do_and_form<U: RealUnit>(
    list: &Vec<Link>,
    from: usize,
    frame: &mut Frame,
    scope: usize,
    tail: bool,
    depth: usize,
    unit: &U,
) -> (result: Result<Value, EvalError>)
    requires
        unit_ready(unit),
    ensures
        outcome_of(result, final(frame)@) == and_from(
            unit,
            link_views(list@),
            from as int,
            old(frame)@,
            scope,
            tail,
            depth as nat,
        ),
    decreases depth, 2int, list.len() - from,
{
    if from >= list.len() {
        Ok(Value::from_boolean(true))
    } else if from == list.len() - 1 {
        eval_at(&list[from], frame, scope, tail, depth, unit)
    } else {
        match eval_at(&list[from], frame, scope, false, depth, unit) {
            Ok(value) => if value.is_true() {
                do_and_form(list, from + 1, frame, scope, tail, depth, unit)
            } else {
                Ok(value)
            },
            Err(fault) => Err(fault),
        }
    }
}

/// The expressions of `or` from `from` on.
pub fn do_or_form<U: RealUnit>(
    list: &Vec<Link>,
    from: usize,
    frame: &mut Frame,
    scope: usize,
    tail: bool,
    depth: usize,
    unit: &U,
) -> (result: Result<Value, EvalError>)
    requires
        unit_ready(unit),
    ensures
        outcome_of(result, final(frame)@) == or_from(
            unit,
            link_views(list@),
            from as int,
            old(frame)@,
            scope,
            tail,
            depth as nat,
        ),
    decreases depth, 2int, list.len() - from,
{
    if from >= list.len() {
        Ok(Value::from_boolean(false))
    } else if from == list.len() - 1 {
        eval_at(&list[from], frame, scope, tail, depth, unit)
    } else {
        match eval_at(&list[from], frame, scope, false, depth, unit) {
            Ok(value) => if value.is_true() {
                Ok(value)
            } else {
                do_or_form(list, from + 1, frame, scope, tail, depth, unit)
            },
            Err(fault) => Err(fault),
        }
    }
}

fn lists(data: &Vec<Link>, key: &Link) -> (yes: bool)
    ensures
        yes == link_views(data@).contains(key@),
{
    let mut index: usize = 0;
    while index < data.len()
        invariant
            index <= data.len(),
            forall|j: int| 0 <= j < index ==> link_views(data@)[j] != key@,
        decreases data.len() - index,
    {
        if data[index].same_as(key) {
            assert(link_views(data@)[index as int] == key@);
            return true;
        }
        index += 1;
    }
    false
}

fn case_from_at<U: RealUnit>(
    key: &Value,
    clauses: &Vec<Link>,
    from: usize,
    frame: &mut Frame,
    scope: usize,
    tail: bool,
    depth: usize,
    unit: &U,
) -> (result: Result<Value, EvalError>)
    requires
        unit_ready(unit),
    ensures
        outcome_of(result, final(frame)@) == case_from(
            unit,
            key@,
            link_views(clauses@),
            from as int,
            old(frame)@,
            scope,
            tail,
            depth as nat,
        ),
    decreases depth, 2int, clauses.len() - from,
{
    if from >= clauses.len() {
        return Ok(Value::Void);
    }
    let parts = clauses[from].iter();
    if parts.len() == 0 {
        return Err(type_error(unit, &clauses[from], "clause"));
    }
    let otherwise = match parts[0].as_symbol() {
        Some(name) => same_text(name, "else"),
        None => false,
    };
    let chosen = otherwise || match key {
        Value::Expression(expression) => {
            let data = parts[0].iter();
            lists(&data, &expression.content)
        },
        _ => false,
    };
    if chosen {
        eval_all_at(&parts, 1, frame, scope, tail, depth, unit)
    } else {
        case_from_at(key, clauses, from + 1, frame, scope, tail, depth, unit)
    }
}

/// `(case key clause ...)`.
pub fn do_case_form<U: RealUnit>(
    args: &Link,
    frame: &mut Frame,
    scope: usize,
    tail: bool,
    depth: usize,
    unit: &U,
) -> (result: Result<Value, EvalError>)
    requires
        unit_ready(unit),
    ensures
        outcome_of(result, final(frame)@) == case_form(
            unit,
            args@,
            old(frame)@,
            scope,
            tail,
            depth as nat,
        ),
    decreases depth, 3int, 0int,
{
    let list = args.iter();
    match check_form("case", 1, usize::MAX, list.len()) {
        Err(fault) => {
            return Err(fault);
        },
        Ok(_) => {},
    }
    let key = match eval_at(&list[0], frame, scope, false, depth, unit) {
        Ok(key) => key,
        Err(fault) => {
            return Err(fault);
        },
    };
    case_from_at(&key, &list, 1, frame, scope, tail, depth, unit)
}

/// The mathematical content of the parts of a variable of `do`.
pub open spec fn variable_result(parts: Result<(String, Link, Option<Link>), EvalError>) -> Result<
    (Seq<char>, Datum, Option<Datum>),
    EvalErrorView,
> {
    match parts {
        Ok((name, initial, Some(step))) => Ok((name@, initial@, Some(step@))),
        Ok((name, initial, None)) => Ok((name@, initial@, None)),
        Err(fault) => Err(fault@),
    }
}

fn variable_of<U: RealUnit>(unit: &U, variable: &Link) -> (parts: Result<
    (String, Link, Option<Link>),
    EvalError,
>)
    requires
        unit_ready(unit),
    ensures
        variable_result(parts) == variable_parts(unit, variable@),
{
    let list = variable.iter();
    if list.len() == 2 || list.len() == 3 {
        match list[0].as_symbol() {
            Some(name) => {
                let step = if list.len() == 3 {
                    Some(list[2].duplicate())
                } else {
                    None
                };
                return Ok((name.to_owned(), list[1].duplicate(), step));
            },
            None => {},
        }
    }
    Err(type_error(unit, variable, "binding"))
}

fn do_values_at<U: RealUnit>(
    stepping: bool,
    variables: &Vec<Link>,
    from: usize,
    frame: &mut Frame,
    scope: usize,
    depth: usize,
    unit: &U,
) -> (result: Result<Vec<(String, Value)>, EvalError>)
    requires
        unit_ready(unit),
    ensures
        pairs_of(result, final(frame)@) == do_values(
            unit,
            stepping,
            link_views(variables@),
            from as int,
            old(frame)@,
            scope,
            depth as nat,
        ),
    decreases depth, 1int, variables.len() - from,
{
    if from >= variables.len() {
        let pairs: Vec<(String, Value)> = Vec::new();
        assert(pair_views(pairs@) =~= Seq::<(Seq<char>, Val)>::empty());
        return Ok(pairs);
    }
    let (name, initial, step) = match variable_of(unit, &variables[from]) {
        Ok(parts) => parts,
        Err(fault) => {
            return Err(fault);
        },
    };
    let expression = if stepping {
        match step {
            Some(step) => step,
            None => {
                return do_values_at(stepping, variables, from + 1, frame, scope, depth, unit);
            },
        }
    } else {
        initial
    };
    let value = match eval_at(&expression, frame, scope, false, depth, unit) {
        Ok(value) => value,
        Err(fault) => {
            return Err(fault);
        },
    };
    match do_values_at(stepping, variables, from + 1, frame, scope, depth, unit) {
        Ok(mut pairs) => {
            let ghost rest = pair_views(pairs@);
            let ghost first = (name@, value@);
            pairs.insert(0, (name, value));
            assert(pair_views(pairs@) =~= seq![first] + rest);
            Ok(pairs)
        },
        Err(fault) => Err(fault),
    }
}

fn bind_all(frame: &mut Frame, scope: usize, pairs: &Vec<(String, Value)>)
    ensures
        final(frame)@ == bound_all(old(frame)@, scope as int, pair_views(pairs@), 0),
{
    let ghost views = pair_views(pairs@);
    let mut index: usize = 0;
    while index < pairs.len()
        invariant
            index <= pairs.len(),
            views == pair_views(pairs@),
            bound_all(frame@, scope as int, views, index as int) == bound_all(
                old(frame)@,
                scope as int,
                views,
                0,
            ),
        decreases pairs.len() - index,
    {
        frame.define_in(scope, pairs[index].0.as_str(), pairs[index].1.duplicate());
        index += 1;
    }
}

/// `(do ((name initial step) ...) (test x ...) body ...)`.
pub fn do_do_form<U: RealUnit>(
    args: &Link,
    frame: &mut Frame,
    scope: usize,
    depth: usize,
    unit: &U,
) -> (result: Result<Value, EvalError>)
    requires
        unit_ready(unit),
    ensures
        outcome_of(result, final(frame)@) == do_form(
            unit,
            args@,
            old(frame)@,
            scope,
            depth as nat,
        ),
    decreases depth, 3int, 0int,
{
    let list = args.iter();
    match check_form("do", 2, usize::MAX, list.len()) {
        Err(fault) => {
            return Err(fault);
        },
        Ok(_) => {},
    }
    let variables = list[0].iter();
    let clause = list[1].iter();
    if clause.len() == 0 {
        return Err(type_error(unit, &list[1], "clause"));
    }
    let pairs = match do_values_at(false, &variables, 0, frame, scope, depth, unit) {
        Ok(pairs) => pairs,
        Err(fault) => {
            return Err(fault);
        },
    };
    let mut rounds = frame.rounds();
    let inner = frame.push_scope(scope);
    bind_all(frame, inner, &pairs);
    let ghost goal = do_form(unit, args@, old(frame)@, scope, depth as nat);
    loop
        invariant
            unit_ready(unit),
            clause@.len() > 0,
            goal == do_form(unit, args@, old(frame)@, scope, depth as nat),
            do_loop(
                unit,
                link_views(variables@),
                link_views(clause@),
                link_views(list@),
                frame@,
                inner,
                depth as nat,
                rounds as nat,
            ) == goal,
        decreases rounds,
    {
        let test = match eval_at(&clause[0], frame, inner, false, depth, unit) {
            Ok(test) => test,
            Err(fault) => {
                return Err(fault);
            },
        };
        if test.is_true() {
            return eval_all_at(&clause, 1, frame, inner, false, depth, unit);
        }
        match eval_all_at(&list, 2, frame, inner, false, depth, unit) {
            Ok(_) => {},
            Err(fault) => {
                return Err(fault);
            },
        }
        let steps = match do_values_at(true, &variables, 0, frame, inner, depth, unit) {
            Ok(steps) => steps,
            Err(fault) => {
                return Err(fault);
            },
        };
        if rounds == 0 {
            return Err(EvalError::BudgetExhausted);
        }
        bind_all(frame, inner, &steps);
        rounds -= 1;
    }
}

/// The mathematical content of what building a template returns, with the
/// store it left.
pub open spec fn built_of(result: Result<Link, EvalError>, env: Env) -> Built {
    match result {
        Ok(link) => (Ok(link@), env),
        Err(fault) => (Err(fault@), env),
    }
}

fn unquote_at<U: RealUnit>(
    keyword: &str,
    operands: &Link,
    frame: &mut Frame,
    scope: usize,
    depth: usize,
    unit: &U,
) -> (result: Result<Link, EvalError>)
    requires
        unit_ready(unit),
    ensures
        built_of(result, final(frame)@) == unquoted(
            unit,
            keyword@,
            operands@,
            old(frame)@,
            scope,
            depth as nat,
        ),
    decreases depth, 1int, 0int,
{
    let list = operands.iter();
    match check_form(keyword, 1, 1, list.len()) {
        Err(fault) => {
            return Err(fault);
        },
        Ok(_) => {},
    }
    match eval_at(&list[0], frame, scope, false, depth, unit) {
        Ok(Value::Expression(expression)) => Ok(expression.content),
        Ok(other) => Err(EvalError::ApplyError(math::invalid_type(unit, &other, "expression"))),
        Err(fault) => Err(fault),
    }
}

fn is_form(link: &Link, keyword: &str) -> (yes: bool)
    ensures
        yes == begins_with(link@, keyword@),
{
    match link.as_pair() {
        Some(pair) => match pair.car.as_symbol() {
            Some(name) => same_text(name, keyword),
            None => false,
        },
        None => false,
    }
}

fn is_symbol_named(link: &Link, keyword: &str) -> (yes: bool)
    ensures
        yes == (link@ == Datum::Symbol(keyword@)),
{
    match link.as_symbol() {
        Some(name) => same_text(name, keyword),
        None => false,
    }
}

/// Builds the expression that a template of `quasiquote` stands for.
pub fn quasi_at<U: RealUnit>(
    template: &Link,
    frame: &mut Frame,
    scope: usize,
    depth: usize,
    unit: &U,
) -> (result: Result<Link, EvalError>)
    requires
        unit_ready(unit),
    ensures
        built_of(result, final(frame)@) == quasi(
            unit,
            template@,
            old(frame)@,
            scope,
            depth as nat,
        ),
    decreases depth, 2int, 0int, template, 0int,
{
    match template.as_pair() {
        Some(pair) => {
            if is_symbol_named(&pair.car, "unquote") {
                return unquote_at("unquote", &pair.cdr, frame, scope, depth, unit);
            }
            if is_form(&pair.car, "unquote-splicing") {
                let operands = rest_after(&pair.car);
                let spliced = match unquote_at(
                    "unquote-splicing",
                    &operands,
                    frame,
                    scope,
                    depth,
                    unit,
                ) {
                    Ok(spliced) => spliced,
                    Err(fault) => {
                        return Err(fault);
                    },
                };
                return match quasi_at(&pair.cdr, frame, scope, depth, unit) {
                    Ok(end) => {
                        let elements = spliced.iter();
                        Ok(build_list(&elements, end))
                    },
                    Err(fault) => Err(fault),
                };
            }
            let head = match quasi_at(&pair.car, frame, scope, depth, unit) {
                Ok(head) => head,
                Err(fault) => {
                    return Err(fault);
                },
            };
            match quasi_at(&pair.cdr, frame, scope, depth, unit) {
                Ok(end) => Ok(Link::new_pair(head, end)),
                Err(fault) => Err(fault),
            }
        },
        None => match template.as_expression_content() {
            Some(crate::data_model::ExpressionContent::VectorLink(slots)) => {
                assert(template@->Vector_0 =~= link_views(slots@));
                match quasi_items_at(slots, 0, frame, scope, depth, unit) {
                    Ok(results) => Ok(Link::from_vector(results)),
                    Err(fault) => Err(fault),
                }
            },
            _ => Ok(template.duplicate()),
        },
    }
}

/// The mathematical content of the slots that building the elements of a
/// vector returns, with the store it left.
pub open spec fn items_built(result: Result<Vec<Link>, EvalError>, env: Env) -> Built {
    match result {
        Ok(slots) => (Ok(Datum::Vector(link_views(slots@))), env),
        Err(fault) => (Err(fault@), env),
    }
}

fn quasi_items_at<U: RealUnit>(
    slots: &Vec<Link>,
    from: usize,
    frame: &mut Frame,
    scope: usize,
    depth: usize,
    unit: &U,
) -> (result: Result<Vec<Link>, EvalError>)
    requires
        unit_ready(unit),
    ensures
        items_built(result, final(frame)@) == quasi_items(
            unit,
            link_views(slots@),
            from as int,
            old(frame)@,
            scope,
            depth as nat,
        ),
    decreases depth, 2int, 0int, slots, slots.len() - from,
{
    if from >= slots.len() {
        let results: Vec<Link> = Vec::new();
        assert(link_views(results@) =~= Seq::<Datum>::empty());
        return Ok(results);
    }
    let head = match quasi_at(&slots[from], frame, scope, depth, unit) {
        Ok(head) => head,
        Err(fault) => {
            return Err(fault);
        },
    };
    match quasi_items_at(slots, from + 1, frame, scope, depth, unit) {
        Ok(mut results) => {
            let ghost rest = link_views(results@);
            let ghost first = head@;
            results.insert(0, head);
            assert(link_views(results@) =~= seq![first] + rest);
            Ok(results)
        },
        Err(fault) => Err(fault),
    }
}

/// `(quasiquote template)`.
pub fn do_quasiquote_form<U: RealUnit>(
    args: &Link,
    frame: &mut Frame,
    scope: usize,
    depth: usize,
    unit: &U,
) -> (result: Result<Value, EvalError>)
    requires
        unit_ready(unit),
    ensures
        outcome_of(result, final(frame)@) == quasiquote_form(
            unit,
            args@,
            old(frame)@,
            scope,
            depth as nat,
        ),
    decreases depth, 3int, 0int,
{
    let list = args.iter();
    match check_form("quasiquote", 1, 1, list.len()) {
        Err(fault) => {
            return Err(fault);
        },
        Ok(_) => {},
    }
    match quasi_at(&list[0], frame, scope, depth, unit) {
        Ok(built) => Ok(Value::from_link(built)),
        Err(fault) => Err(fault),
    }
}

/// Evaluates the special form `form` on the operands `args`.
pub fn apply_form_at<U: RealUnit>(
    form: SpecialForm,
    args: &Link,
    frame: &mut Frame,
    scope: usize,
    tail: bool,
    depth: usize,
    unit: &U,
) -> (result: Result<Value, EvalError>)
    requires
        unit_ready(unit),
    ensures
        outcome_of(result, final(frame)@) == apply_form(
            unit,
            form,
            args@,
            old(frame)@,
            scope,
            tail,
            depth as nat,
        ),
    decreases depth, 4int, 0int,
{
    match form {
        SpecialForm::And => {
            let list = args.iter();
            do_and_form(&list, 0, frame, scope, tail, depth, unit)
        },
        SpecialForm::Begin => do_begin_form(args, frame, scope, tail, depth, unit),
        SpecialForm::Case => do_case_form(args, frame, scope, tail, depth, unit),
        SpecialForm::Do => do_do_form(args, frame, scope, depth, unit),
        SpecialForm::QuasiQuote => do_quasiquote_form(args, frame, scope, depth, unit),
        SpecialForm::Cond => {
            let clauses = args.iter();
            do_cond_form(&clauses, 0, frame, scope, tail, depth, unit)
        },
        SpecialForm::Define => do_define_form(args, frame, scope, depth, unit),
        SpecialForm::Delay => do_delay_form(args, frame, scope, unit),
        SpecialForm::If => do_if_form(args, frame, scope, tail, depth, unit),
        SpecialForm::Lambda => do_lambda_form(args, frame, scope, unit),
        SpecialForm::Let => do_let_form(args, frame, scope, tail, depth, unit),
        SpecialForm::LetRec => do_letrec_form(args, frame, scope, tail, depth, unit),
        SpecialForm::LetStar => do_let_star_form("let*", args, frame, scope, tail, depth, unit),
        SpecialForm::Or => {
            let list = args.iter();
            do_or_form(&list, 0, frame, scope, tail, depth, unit)
        },
        SpecialForm::Quote => do_quote_form(args, frame, unit),
        SpecialForm::Assign => do_set_form(args, frame, scope, depth, unit),
        SpecialForm::Unless => do_when_form("unless", false, args, frame, scope, tail, depth, unit),
        SpecialForm::When => do_when_form("when", true, args, frame, scope, tail, depth, unit),
        other => Err(EvalError::Unimplemented(other.name().to_owned())),
    }
}

/// Evaluates `expression` in the current frame of `frame`. Where
/// `tail_content` is set and the expression is a call, the call is not
/// made: it is returned as a thunk.
pub fn eval<U: RealUnit>(
    expression: Expression,
    frame: &mut Frame,
    tail_content: bool,
    unit: &U,
) -> (result: Result<Value, EvalError>)
    requires
        unit_ready(unit),
    ensures
        outcome_of(result, final(frame)@) == evaluate(
            unit,
            expression@,
            old(frame)@,
            old(frame)@.current,
            tail_content,
            old(frame)@.depth as nat,
        ),
{
    let scope = frame.current();
    let depth = frame.depth();
    eval_at(&expression.content, frame, scope, tail_content, depth, unit)
}

/// Evaluates the expressions of the list `expressions` in order, in the
/// current frame, and gives the value of the last, which is in tail
/// position.
pub fn eval_all<U: RealUnit>(expressions: Link, frame: &mut Frame, unit: &U) -> (result: Result<
    Value,
    EvalError,
>)
    requires
        unit_ready(unit),
    ensures
        outcome_of(result, final(frame)@) == evaluate_all(
            unit,
            items(expressions@),
            0,
            old(frame)@,
            old(frame)@.current,
            true,
            old(frame)@.depth as nat,
        ),
{
    let scope = frame.current();
    let depth = frame.depth();
    let list = expressions.iter();
    eval_all_at(&list, 0, frame, scope, true, depth, unit)
}

impl SpecialForm {
    /// Evaluates the form on the operands `args`, in the current frame.
    pub fn apply<U: RealUnit>(&self, args: Link, frame: &mut Frame, unit: &U) -> (result: Result<
        Value,
        EvalError,
    >)
        requires
            unit_ready(unit),
        ensures
            outcome_of(result, final(frame)@) == apply_form(
                unit,
                *self,
                args@,
                old(frame)@,
                old(frame)@.current,
                false,
                old(frame)@.depth as nat,
            ),
    {
        let scope = frame.current();
        let depth = frame.depth();
        apply_form_at(*self, &args, frame, scope, false, depth, unit)
    }
}

impl BuiltinProcedure {
    /// Applies the procedure to the operands `args`. The store is left
    /// alone.
    pub fn apply<U: RealUnit>(&self, args: Vec<Value>, frame: &mut Frame, unit: &U) -> (result:
        Result<Value, ApplyError>)
        requires
            unit_ready(unit),
        ensures
            math::applied_of(result) == apply_builtin(unit, self.function, value_views(args@)),
            final(frame)@ == old(frame)@,
    {
        apply_function(self.function, args, unit)
    }
}

impl LambdaProcedure {
    /// Applies the procedure to the operands `args`.
    pub fn apply<U: RealUnit>(&self, args: Vec<Value>, frame: &mut Frame, unit: &U) -> (result:
        Result<Value, EvalError>)
        requires
            unit_ready(unit),
        ensures
            outcome_of(result, final(frame)@) == apply_lambda(
                unit,
                self@,
                value_views(args@),
                old(frame)@,
                old(frame)@.depth as nat,
            ),
    {
        let depth = frame.depth();
        apply_lambda_at(self, args, frame, depth, unit)
    }
}

impl Procedure {
    /// Applies the procedure to the operands `args`.
    pub fn apply<U: RealUnit>(&self, args: Vec<Value>, frame: &mut Frame, unit: &U) -> (result:
        Result<Value, EvalError>)
        requires
            unit_ready(unit),
        ensures
            outcome_of(result, final(frame)@) == apply(
                unit,
                self@,
                value_views(args@),
                old(frame)@,
                old(frame)@.depth as nat,
            ),
    {
        let depth = frame.depth();
        apply_at(self, args, frame, depth, unit)
    }
}

} // verus!
