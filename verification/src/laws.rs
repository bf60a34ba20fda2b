//! What holds of the interpreter whatever the program: each statement is
//! proved from the definitions of the other modules.
use vstd::prelude::*;
use crate::builtin::math::{number_of, number_val, quotient_of, Applied};
use crate::data_model::Datum;
use crate::error::{ApplyErrorView, InvalidArgumentView};
use crate::evaluator::{
    and_from, apply_form, closure, evaluate, form_from, form_of, lambda_form, or_from,
    special_form, truth, SpecialForm,
};
use crate::frame::{Env, Scope};
use crate::number::Number;
use crate::reals::{real_arith, real_of_integer, Real, RealOp, RealUnit};
use crate::value::Val;

verus! {

/// How wide a number is: an integer is the narrowest, a complex number the
/// widest.
pub open spec fn width(n: Number) -> int {
    match n {
        Number::Integer(_) => 0,
        Number::Real(_) => 1,
        Number::Complex(_, _) => 2,
    }
}

/// The wider of two widths.
pub open spec fn wider(a: int, b: int) -> int {
    if a >= b {
        a
    } else {
        b
    }
}

/// The result of each of the four operations is as wide as the wider of
/// its operands, and never collapses to a narrower kind.
pub proof fn arithmetic_keeps_the_widest<U: RealUnit>(unit: &U, a: Number, b: Number)
    ensures
        width(a.sum(b, unit)) == wider(width(a), width(b)),
        width(a.difference(b, unit)) == wider(width(a), width(b)),
        width(a.product(b, unit)) == wider(width(a), width(b)),
        width(a.quotient(b, unit)) == wider(width(a), width(b)),
{
}

/// Where the exact sum, difference or product of two integers is a
/// machine integer, it is the result; where it is not, the result is the
/// least or the greatest machine integer, whichever is nearer.
pub proof fn integer_arithmetic_saturates<U: RealUnit>(unit: &U, a: i32, b: i32)
    ensures
        Number::Integer(a).sum(Number::Integer(b), unit) == Number::Integer(
            if a + b > i32::MAX {
                i32::MAX
            } else if a + b < i32::MIN {
                i32::MIN
            } else {
                (a + b) as i32
            },
        ),
        Number::Integer(a).difference(Number::Integer(b), unit) == Number::Integer(
            if a - b > i32::MAX {
                i32::MAX
            } else if a - b < i32::MIN {
                i32::MIN
            } else {
                (a - b) as i32
            },
        ),
        Number::Integer(a).product(Number::Integer(b), unit) == Number::Integer(
            if a * b > i32::MAX {
                i32::MAX
            } else if a * b < i32::MIN {
                i32::MIN
            } else {
                (a * b) as i32
            },
        ),
{
}

/// An integer added to a real is the real that the unit gives for the sum
/// of the real equal to the integer and the real; added to a complex
/// number it is added to the real part in the same way, and the imaginary
/// part stays.
pub proof fn integer_is_promoted<U: RealUnit>(unit: &U, a: i32, b: Real, c: Real)
    ensures
        Number::Integer(a).sum(Number::Real(b), unit) == Number::Real(
            real_arith(unit, RealOp::Add, real_of_integer(a), b),
        ),
        Number::Real(b).sum(Number::Integer(a), unit) == Number::Real(
            real_arith(unit, RealOp::Add, b, real_of_integer(a)),
        ),
        Number::Integer(a).sum(Number::Complex(b, c), unit) == Number::Complex(
            real_arith(unit, RealOp::Add, real_of_integer(a), b),
            c,
        ),
{
}

/// The fault of a zero divisor.
pub open spec fn zero_divisor() -> Applied {
    Err(ApplyErrorView::InvalidArgument(InvalidArgumentView::ZeroDivisor))
}

/// Dividing a number by a zero of any kind — the integer 0, a real zero of
/// either sign, a complex number with two zero parts — is a fault, and so
/// is one over zero.
pub proof fn a_zero_divisor_is_a_fault<U: RealUnit>(unit: &U, dividend: Number, divisor: Number)
    requires
        divisor.zero(),
    ensures
        quotient_of(unit, seq![number_val(dividend), number_val(divisor)]) == zero_divisor(),
        quotient_of(unit, seq![number_val(divisor)]) == zero_divisor(),
{
    let args = seq![number_val(dividend), number_val(divisor)];
    assert(number_of(args[0]) == Some(dividend));
    assert(number_of(args[1]) == Some(divisor));
    let single = seq![number_val(divisor)];
    assert(number_of(single[0]) == Some(divisor));
}

/// The expression `(keyword first . rest)`.
pub open spec fn form(keyword: Seq<char>, first: Datum, rest: Datum) -> Datum {
    Datum::Pair(
        Box::new(Datum::Symbol(keyword)),
        Box::new(Datum::Pair(Box::new(first), Box::new(rest))),
    )
}

/// `(and #f x ...)` is `#f` and leaves the store alone, whatever the
/// other operands are: they are not evaluated.
pub proof fn and_stops_at_false<U: RealUnit>(
    unit: &U,
    rest: Datum,
    env: Env,
    scope: usize,
    tail: bool,
    depth: nat,
)
    requires
        depth >= 2,
    ensures
        evaluate(unit, form("and"@, Datum::Boolean(false), rest), env, scope, tail, depth) == (
            Ok::<Val, crate::error::EvalErrorView>(truth(false)),
            env,
        ),
{
    assert(special_form("and"@) == Some(SpecialForm::And));
    let operands = Datum::Pair(Box::new(Datum::Boolean(false)), Box::new(rest));
    let list = crate::data_model::items(operands);
    let below = (depth - 1) as nat;
    assert(list[0] == Datum::Boolean(false));
    assert(list.len() == 1 + crate::data_model::items(rest).len());
    assert(form_of(Datum::Symbol("and"@)) == Some(SpecialForm::And));
    assert(evaluate(unit, list[0], env, scope, tail, below) == (
        Ok::<Val, crate::error::EvalErrorView>(truth(false)),
        env,
    ));
    assert(evaluate(unit, list[0], env, scope, false, below) == (
        Ok::<Val, crate::error::EvalErrorView>(truth(false)),
        env,
    ));
    assert(and_from(unit, list, 0, env, scope, tail, below) == (
        Ok::<Val, crate::error::EvalErrorView>(truth(false)),
        env,
    ));
    assert(apply_form(unit, SpecialForm::And, operands, env, scope, tail, below) == and_from(
        unit,
        list,
        0,
        env,
        scope,
        tail,
        below,
    ));
}

proof fn keyword_of_or()
    ensures
        special_form("or"@) == Some(SpecialForm::Or),
{
    reveal_with_fuel(form_from, 16);
    reveal_strlit("or");
    reveal_strlit("and");
    reveal_strlit("begin");
    reveal_strlit("case");
    reveal_strlit("cond");
    reveal_strlit("define");
    reveal_strlit("delay");
    reveal_strlit("do");
    reveal_strlit("if");
    reveal_strlit("lambda");
    reveal_strlit("let");
    reveal_strlit("letrec");
    reveal_strlit("letrec-syntax");
    reveal_strlit("let*");
    reveal_strlit("let-syntax");
    assert("or"@.len() == 2);
    assert("or"@[0] == 'o');
    assert("do"@[0] == 'd');
    assert("if"@[0] == 'i');
}

/// `(or #t x ...)` is `#t` and leaves the store alone, whatever the other
/// operands are: they are not evaluated.
pub proof fn or_stops_at_true<U: RealUnit>(
    unit: &U,
    rest: Datum,
    env: Env,
    scope: usize,
    tail: bool,
    depth: nat,
)
    requires
        depth >= 2,
    ensures
        evaluate(unit, form("or"@, Datum::Boolean(true), rest), env, scope, tail, depth) == (
            Ok::<Val, crate::error::EvalErrorView>(truth(true)),
            env,
        ),
{
    keyword_of_or();
    let operands = Datum::Pair(Box::new(Datum::Boolean(true)), Box::new(rest));
    let list = crate::data_model::items(operands);
    let below = (depth - 1) as nat;
    assert(list[0] == Datum::Boolean(true));
    assert(list.len() == 1 + crate::data_model::items(rest).len());
    assert(form_of(Datum::Symbol("or"@)) == Some(SpecialForm::Or));
    assert(evaluate(unit, list[0], env, scope, tail, below) == (
        Ok::<Val, crate::error::EvalErrorView>(truth(true)),
        env,
    ));
    assert(evaluate(unit, list[0], env, scope, false, below) == (
        Ok::<Val, crate::error::EvalErrorView>(truth(true)),
        env,
    ));
    assert(or_from(unit, list, 0, env, scope, tail, below) == (
        Ok::<Val, crate::error::EvalErrorView>(truth(true)),
        env,
    ));
    assert(apply_form(unit, SpecialForm::Or, operands, env, scope, tail, below) == or_from(
        unit,
        list,
        0,
        env,
        scope,
        tail,
        below,
    ));
}

/// Whether frame `other` is `scope` itself or one of its parents, near or
/// far.
pub open spec fn on_chain(env: Env, scope: int, other: int) -> bool
    decreases scope,
{
    if scope < 0 || scope >= env.scopes.len() {
        false
    } else if scope == other {
        true
    } else {
        match env.scopes[scope].parent {
            Some(parent) => parent < scope && on_chain(env, parent as int, other),
            None => false,
        }
    }
}

/// Adding a frame to the store changes nothing that is seen from the
/// frames that were there.
pub proof fn a_new_frame_changes_no_other(env: Env, parent: usize, scope: int, name: Seq<char>)
    requires
        scope < env.scopes.len(),
    ensures
        env.push(parent).lookup(scope, name) == env.lookup(scope, name),
    decreases scope,
{
    if 0 <= scope {
        assert(env.push(parent).scopes[scope] == env.scopes[scope]);
        match env.scopes[scope].parent {
            Some(above) => {
                if above < scope {
                    a_new_frame_changes_no_other(env, parent, above as int, name);
                }
            },
            None => {},
        }
    }
}

/// A frame made under another reads through to it. From the new frame a
/// name is seen as it is from the parent; and what is bound in the parent
/// after the child was made is seen from the child too.
pub proof fn a_child_reads_through_to_its_parent(
    env: Env,
    parent: usize,
    name: Seq<char>,
    value: Val,
)
    requires
        parent < env.scopes.len(),
    ensures
        env.push(parent).lookup(env.scopes.len() as int, name) == env.lookup(parent as int, name),
        env.push(parent).define(parent as int, name, value).lookup(env.scopes.len() as int, name)
            == Some(value),
{
    let child = env.scopes.len() as int;
    let made = env.push(parent);
    assert(made.scopes[child] == Scope::empty(Some(parent)));
    assert(made.scopes[child].lookup(name) is None);
    a_new_frame_changes_no_other(env, parent, parent as int, name);
    let later = made.define(parent as int, name, value);
    assert(later.scopes[child] == Scope::empty(Some(parent)));
    assert(later.scopes[child].lookup(name) is None);
    assert(later.lookup(child, name) == later.lookup(parent as int, name));
    a_definition_is_seen(made, parent as int, name, value);
}

/// What is bound in a frame that is not on the chain of parents of `scope`
/// is not seen from `scope`: a procedure, whose body is evaluated in a
/// frame under the one it was made in, sees the bindings of that chain and
/// no others, whoever calls it and whatever is bound elsewhere later.
pub proof fn a_binding_elsewhere_is_not_seen(
    env: Env,
    scope: int,
    other: int,
    name: Seq<char>,
    value: Val,
    wanted: Seq<char>,
)
    requires
        !on_chain(env, scope, other),
    ensures
        env.define(other, name, value).lookup(scope, wanted) == env.lookup(scope, wanted),
    decreases scope,
{
    if 0 <= scope < env.scopes.len() {
        match env.scopes[scope].parent {
            Some(parent) => {
                if parent < scope {
                    a_binding_elsewhere_is_not_seen(env, parent as int, other, name, value, wanted);
                }
            },
            None => {},
        }
    }
}

/// A binding of another name changes nothing for `wanted`, wherever it is
/// made.
pub proof fn a_binding_of_another_name_is_not_seen(
    env: Env,
    scope: int,
    other: int,
    name: Seq<char>,
    value: Val,
    wanted: Seq<char>,
)
    requires
        name != wanted,
    ensures
        env.define(other, name, value).lookup(scope, wanted) == env.lookup(scope, wanted),
    decreases scope,
{
    if 0 <= other < env.scopes.len() {
        crate::frame::lemma_define_keeps_others(env.scopes[other], name, value, wanted);
    }
    if 0 <= scope < env.scopes.len() {
        match env.scopes[scope].parent {
            Some(parent) => {
                if parent < scope {
                    a_binding_of_another_name_is_not_seen(
                        env,
                        parent as int,
                        other,
                        name,
                        value,
                        wanted,
                    );
                }
            },
            None => {},
        }
    }
}

/// What `define` binds in a frame is what a lookup from that frame finds.
pub proof fn a_definition_is_seen(env: Env, scope: int, name: Seq<char>, value: Val)
    requires
        0 <= scope < env.scopes.len(),
    ensures
        env.define(scope, name, value).lookup(scope, name) == Some(value),
{
    crate::frame::lemma_define_then_lookup(env.scopes[scope], name, value);
}

/// A call in tail position is not made where it stands: it is handed
/// back, with the number of its frame, to the call that it ends, which
/// makes it in its own place. However long a chain of such calls is, the
/// nesting of evaluations does not grow with it.
pub proof fn a_tail_call_is_handed_back<U: RealUnit>(
    unit: &U,
    operator: Datum,
    operands: Datum,
    env: Env,
    scope: usize,
    depth: nat,
)
    requires
        depth >= 1,
        form_of(operator) is None,
    ensures
        evaluate(
            unit,
            Datum::Pair(Box::new(operator), Box::new(operands)),
            env,
            scope,
            true,
            depth,
        ) == (
            Ok::<Val, crate::error::EvalErrorView>(
                Val::Thunk(Datum::Pair(Box::new(operator), Box::new(operands)), scope),
            ),
            env,
        ),
{
}

/// Evaluating a symbol gives the value that the chain of frames binds it
/// to, and a fault that names the symbol where none does, or where it is
/// a name of `letrec` whose expression has not been evaluated yet; the
/// store stays as it is.
pub proof fn a_symbol_is_looked_up<U: RealUnit>(
    unit: &U,
    name: Seq<char>,
    env: Env,
    scope: usize,
    tail: bool,
    depth: nat,
)
    requires
        depth >= 1,
    ensures
        evaluate(unit, Datum::Symbol(name), env, scope, tail, depth) == match env.lookup(
            scope as int,
            name,
        ) {
            Some(Val::Uninitialized) => (
                Err::<Val, crate::error::EvalErrorView>(
                    crate::error::EvalErrorView::UnknownIdentifier(name),
                ),
                env,
            ),
            Some(value) => (Ok::<Val, crate::error::EvalErrorView>(value), env),
            None => (
                Err::<Val, crate::error::EvalErrorView>(
                    crate::error::EvalErrorView::UnknownIdentifier(name),
                ),
                env,
            ),
        },
{
}

/// `define` writes in one frame only: every other frame of the store is
/// as it was.
pub proof fn a_definition_stays_in_its_frame(
    env: Env,
    scope: int,
    name: Seq<char>,
    value: Val,
    other: int,
)
    requires
        0 <= other < env.scopes.len(),
        other != scope,
    ensures
        env.define(scope, name, value).scopes.len() == env.scopes.len(),
        env.define(scope, name, value).scopes[other] == env.scopes[other],
{
}

proof fn keyword_of_lambda()
    ensures
        special_form("lambda"@) == Some(SpecialForm::Lambda),
{
    reveal_with_fuel(form_from, 10);
    reveal_strlit("lambda");
    reveal_strlit("and");
    reveal_strlit("begin");
    reveal_strlit("case");
    reveal_strlit("cond");
    reveal_strlit("define");
    reveal_strlit("delay");
    reveal_strlit("do");
    reveal_strlit("if");
    assert("lambda"@.len() == 6);
    assert("lambda"@[0] == 'l');
    assert("define"@[0] == 'd');
}

/// A procedure made by `lambda` carries the number of the frame in which
/// the `lambda` was evaluated, and making it leaves the store alone.
pub proof fn a_procedure_remembers_its_frame<U: RealUnit>(
    unit: &U,
    formals: Datum,
    first: Datum,
    rest: Datum,
    env: Env,
    scope: usize,
    tail: bool,
    depth: nat,
)
    requires
        depth >= 1,
        crate::data_model::items(rest).len() + 2 <= usize::MAX,
        closure(
            unit,
            formals,
            Datum::Pair(Box::new(first), Box::new(rest)),
            None,
            scope,
        ) is Ok,
    ensures
        ({
            let outcome = evaluate(
                unit,
                form("lambda"@, formals, Datum::Pair(Box::new(first), Box::new(rest))),
                env,
                scope,
                tail,
                depth,
            );
            &&& outcome.1 == env
            &&& outcome.0 matches Ok(Val::Lambda(made))
            &&& made.frame == scope
            &&& made.body == Datum::Pair(Box::new(first), Box::new(rest))
        }),
{
    keyword_of_lambda();
    let body = Datum::Pair(Box::new(first), Box::new(rest));
    let operands = Datum::Pair(Box::new(formals), Box::new(body));
    let list = crate::data_model::items(operands);
    assert(crate::data_model::items(body).len() == 1 + crate::data_model::items(rest).len());
    assert(list[0] == formals);
    assert(list.len() == 1 + crate::data_model::items(body).len());
    assert(form_of(Datum::Symbol("lambda"@)) == Some(SpecialForm::Lambda));
    assert(crate::evaluator::after(operands, 1) == body) by {
        assert(crate::evaluator::after(body, 0) == body);
    }
    assert(apply_form(unit, SpecialForm::Lambda, operands, env, scope, tail, (depth - 1) as nat)
        == lambda_form(unit, operands, env, scope));
    assert(crate::evaluator::form_arity("lambda"@, 2, usize::MAX, list.len()) is None);
    let made = closure(unit, formals, body, None, scope);
    assert(lambda_form(unit, operands, env, scope) == (
        Ok::<Val, crate::error::EvalErrorView>(Val::Lambda(made->Ok_0)),
        env,
    ));
    assert(evaluate(unit, form("lambda"@, formals, body), env, scope, tail, depth) == apply_form(
        unit,
        SpecialForm::Lambda,
        operands,
        env,
        scope,
        tail,
        (depth - 1) as nat,
    ));
}

} // verus!
