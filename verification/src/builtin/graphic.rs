//! The procedures of the turtle.
use vstd::prelude::*;
use crate::builtin::math::{
    applied_of, arity, boolean_val, check_arity, invalid_type, not_a_number, number_of, number_val,
    wrong_type, Applied,
};
use crate::canvas::{Canvas, CanvasModel};
use crate::data_model::{list_of, Datum, Link};
use crate::error::{ApplyError, ApplyErrorView};
use crate::number::Number;
use crate::reals::{
    arithmetic, real_arith, real_of_integer, unit_ready, Real, RealOp, RealUnit,
};
use crate::value::{value_views, Turtle, Val, Value};

verus! {

/// The real that an operand stands for: an integer is taken to the real
/// equal to it; a complex number is no real.
pub open spec fn real_operand<U: RealUnit>(unit: &U, v: Val) -> Result<Real, ApplyErrorView> {
    match number_of(v) {
        None => Err(not_a_number(unit, v)),
        Some(Number::Integer(i)) => Ok(real_of_integer(i)),
        Some(Number::Real(r)) => Ok(r),
        Some(Number::Complex(_, _)) => Err(wrong_type(unit, v, "real"@)),
    }
}

/// How many operands a procedure of the turtle takes.
pub open spec fn operands(function: Turtle) -> usize {
    match function {
        Turtle::Forward | Turtle::Backward | Turtle::Right | Turtle::Left | Turtle::SetHeading => 1,
        Turtle::SetPosition => 2,
        _ => 0,
    }
}

/// Zero less `x`: `x` seen from the other side, a zero staying positive.
pub open spec fn mirrored<U: RealUnit>(unit: &U, x: Real) -> Real {
    real_arith(unit, RealOp::Sub, Real::spec_zero(), x)
}

/// The position of the turtle as a list of two reals, `y` growing upward.
pub open spec fn position_of<U: RealUnit>(unit: &U, canvas: CanvasModel) -> Val {
    Val::Datum(
        list_of(
            seq![
                Datum::Number(Number::Real(canvas.x)),
                Datum::Number(Number::Real(mirrored(unit, canvas.y))),
            ],
            Datum::Nil,
        ),
    )
}

/// What a procedure of the turtle does with one real operand.
pub open spec fn moved<U: RealUnit>(
    unit: &U,
    function: Turtle,
    canvas: CanvasModel,
    operand: Real,
) -> CanvasModel {
    match function {
        Turtle::Forward => canvas.forward(unit, operand),
        Turtle::Backward => canvas.forward(unit, operand.negated()),
        Turtle::Right => canvas.rotate(unit, operand.negated()),
        Turtle::Left => canvas.rotate(unit, operand),
        Turtle::SetHeading => canvas.abs_rotate(unit, operand),
        _ => canvas,
    }
}

/// What a procedure of the turtle gives for the operands `args`, and the
/// canvas that it leaves. A wrong number of operands and an operand that
/// is no real are faults, which leave the canvas alone.
pub open spec fn turtle_step<U: RealUnit>(
    unit: &U,
    function: Turtle,
    args: Seq<Val>,
    canvas: CanvasModel,
) -> (Applied, CanvasModel) {
    match arity(unit, function.spec_name(), operands(function), operands(function), args.len()) {
        Some(fault) => (Err(fault), canvas),
        None => match function {
            Turtle::Forward | Turtle::Backward | Turtle::Right | Turtle::Left
            | Turtle::SetHeading => match real_operand(unit, args[0]) {
                Err(fault) => (Err(fault), canvas),
                Ok(operand) => (Ok(Val::Void), moved(unit, function, canvas, operand)),
            },
            Turtle::SetPosition => match real_operand(unit, args[0]) {
                Err(fault) => (Err(fault), canvas),
                Ok(x) => match real_operand(unit, args[1]) {
                    Err(fault) => (Err(fault), canvas),
                    Ok(y) => (Ok(Val::Void), canvas.mov(x, y.negated())),
                },
            },
            Turtle::Position => (Ok(position_of(unit, canvas)), canvas),
            Turtle::Heading => (Ok(number_val(Number::Real(mirrored(unit, canvas.angle)))), canvas),
            Turtle::BeginFill => (Ok(Val::Void), canvas.begin_fill()),
            Turtle::EndFill => (Ok(Val::Void), canvas.end_fill()),
            Turtle::PenUp => (Ok(Val::Void), CanvasModel { pen_down: false, ..canvas }),
            Turtle::PenDown => (Ok(Val::Void), CanvasModel { pen_down: true, ..canvas }),
            Turtle::Reset => (Ok(Val::Void), CanvasModel::initial()),
            Turtle::ShowTurtle => (Ok(Val::Void), CanvasModel { turtle_visible: true, ..canvas }),
            Turtle::HideTurtle => (Ok(Val::Void), CanvasModel { turtle_visible: false, ..canvas }),
            Turtle::IsVisible => (Ok(boolean_val(canvas.turtle_visible)), canvas),
        },
    }
}

/// The mathematical content of an operand read as a real.
pub open spec fn real_result(read: Result<Real, ApplyError>) -> Result<Real, ApplyErrorView> {
    match read {
        Ok(r) => Ok(r),
        Err(fault) => Err(fault@),
    }
}

/// Reads an operand as a real.
pub fn real_from<U: RealUnit>(unit: &U, value: &Value) -> (read: Result<Real, ApplyError>)
    requires
        unit_ready(unit),
    ensures
        real_result(read) == real_operand(unit, value@),
{
    match value.as_number() {
        None => Err(crate::builtin::math::not_number(unit, value)),
        Some(Number::Integer(i)) => Ok(Real::of_integer(*i)),
        Some(Number::Real(r)) => Ok(*r),
        Some(Number::Complex(_, _)) => Err(invalid_type(unit, value, "real")),
    }
}

fn one_operand<U: RealUnit>(function: Turtle, args: &Vec<Value>, canvas: &mut Canvas, unit: &U) -> (result:
    Result<Value, ApplyError>)
    requires
        unit_ready(unit),
        operands(function) == 1,
    ensures
        applied_of(result) == turtle_step(unit, function, value_views(args@), old(canvas)@).0,
        final(canvas)@ == turtle_step(unit, function, value_views(args@), old(canvas)@).1,
{
    match check_arity(unit, function.name(), 1, 1, args.len()) {
        Err(fault) => {
            return Err(fault);
        },
        Ok(_) => {},
    }
    let operand = match real_from(unit, &args[0]) {
        Ok(operand) => operand,
        Err(fault) => {
            return Err(fault);
        },
    };
    match function {
        Turtle::Forward => canvas.forward(operand, unit),
        Turtle::Backward => canvas.forward(operand.negate(), unit),
        Turtle::Right => canvas.rotate(operand.negate(), unit),
        Turtle::Left => canvas.rotate(operand, unit),
        Turtle::SetHeading => canvas.abs_rotate(operand, unit),
        _ => {},
    }
    Ok(Value::Void)
}

/// `(forward d)`: the turtle goes `d` along its heading.
pub fn forward<U: RealUnit>(args: Vec<Value>, canvas: &mut Canvas, unit: &U) -> (result: Result<
    Value,
    ApplyError,
>)
    requires
        unit_ready(unit),
    ensures
        applied_of(result) == turtle_step(unit, Turtle::Forward, value_views(args@), old(canvas)@).0,
        final(canvas)@ == turtle_step(unit, Turtle::Forward, value_views(args@), old(canvas)@).1,
{
    one_operand(Turtle::Forward, &args, canvas, unit)
}

/// `(backward d)`: the turtle goes `d` against its heading.
pub fn backward<U: RealUnit>(args: Vec<Value>, canvas: &mut Canvas, unit: &U) -> (result: Result<
    Value,
    ApplyError,
>)
    requires
        unit_ready(unit),
    ensures
        applied_of(result) == turtle_step(unit, Turtle::Backward, value_views(args@), old(canvas)@).0,
        final(canvas)@ == turtle_step(unit, Turtle::Backward, value_views(args@), old(canvas)@).1,
{
    one_operand(Turtle::Backward, &args, canvas, unit)
}

/// `(right a)`: the turtle turns `a` degrees to the right.
pub fn right<U: RealUnit>(args: Vec<Value>, canvas: &mut Canvas, unit: &U) -> (result: Result<
    Value,
    ApplyError,
>)
    requires
        unit_ready(unit),
    ensures
        applied_of(result) == turtle_step(unit, Turtle::Right, value_views(args@), old(canvas)@).0,
        final(canvas)@ == turtle_step(unit, Turtle::Right, value_views(args@), old(canvas)@).1,
{
    one_operand(Turtle::Right, &args, canvas, unit)
}

/// `(left a)`: the turtle turns `a` degrees to the left.
pub fn left<U: RealUnit>(args: Vec<Value>, canvas: &mut Canvas, unit: &U) -> (result: Result<
    Value,
    ApplyError,
>)
    requires
        unit_ready(unit),
    ensures
        applied_of(result) == turtle_step(unit, Turtle::Left, value_views(args@), old(canvas)@).0,
        final(canvas)@ == turtle_step(unit, Turtle::Left, value_views(args@), old(canvas)@).1,
{
    one_operand(Turtle::Left, &args, canvas, unit)
}

/// `(setheading a)`: the turtle turns to `a` degrees to the left of east.
pub fn setheading<U: RealUnit>(args: Vec<Value>, canvas: &mut Canvas, unit: &U) -> (result: Result<
    Value,
    ApplyError,
>)
    requires
        unit_ready(unit),
    ensures
        applied_of(result) == turtle_step(
            unit,
            Turtle::SetHeading,
            value_views(args@),
            old(canvas)@,
        ).0,
        final(canvas)@ == turtle_step(unit, Turtle::SetHeading, value_views(args@), old(canvas)@).1,
{
    one_operand(Turtle::SetHeading, &args, canvas, unit)
}

/// `(setposition x y)`: the turtle goes to `(x, y)`, `y` growing upward.
pub fn setposition<U: RealUnit>(args: Vec<Value>, canvas: &mut Canvas, unit: &U) -> (result: Result<
    Value,
    ApplyError,
>)
    requires
        unit_ready(unit),
    ensures
        applied_of(result) == turtle_step(
            unit,
            Turtle::SetPosition,
            value_views(args@),
            old(canvas)@,
        ).0,
        final(canvas)@ == turtle_step(unit, Turtle::SetPosition, value_views(args@), old(canvas)@).1,
{
    match check_arity(unit, "setposition", 2, 2, args.len()) {
        Err(fault) => {
            return Err(fault);
        },
        Ok(_) => {},
    }
    let x = match real_from(unit, &args[0]) {
        Ok(x) => x,
        Err(fault) => {
            return Err(fault);
        },
    };
    let y = match real_from(unit, &args[1]) {
        Ok(y) => y,
        Err(fault) => {
            return Err(fault);
        },
    };
    canvas.mov(x, y.negate());
    Ok(Value::Void)
}

fn no_operand<U: RealUnit>(function: Turtle, args: &Vec<Value>, canvas: &mut Canvas, unit: &U) -> (result:
    Result<Value, ApplyError>)
    requires
        unit_ready(unit),
        operands(function) == 0,
    ensures
        applied_of(result) == turtle_step(unit, function, value_views(args@), old(canvas)@).0,
        final(canvas)@ == turtle_step(unit, function, value_views(args@), old(canvas)@).1,
{
    match check_arity(unit, function.name(), 0, 0, args.len()) {
        Err(fault) => {
            return Err(fault);
        },
        Ok(_) => {},
    }
    match function {
        Turtle::Position => {
            let x = Link::from_number(Number::Real(canvas.content.x));
            let y = Link::from_number(
                Number::Real(arithmetic(unit, RealOp::Sub, Real::zero_value(), canvas.content.y)),
            );
            let list = Link::new_pair(x, Link::new_pair(y, Link::Nil));
            proof {
                let pair = seq![
                    Datum::Number(Number::Real(canvas@.x)),
                    Datum::Number(Number::Real(mirrored(unit, canvas@.y))),
                ];
                assert(pair.drop_first() =~= seq![pair[1]]);
                assert(pair.drop_first().drop_first() =~= Seq::<Datum>::empty());
                reveal_with_fuel(list_of, 3);
            }
            Ok(Value::from_link(list))
        },
        Turtle::Heading => Ok(
            Value::from_number(
                Number::Real(
                    arithmetic(unit, RealOp::Sub, Real::zero_value(), canvas.content.angle),
                ),
            ),
        ),
        Turtle::BeginFill => {
            canvas.begin_fill();
            Ok(Value::Void)
        },
        Turtle::EndFill => {
            canvas.end_fill();
            Ok(Value::Void)
        },
        Turtle::PenUp => {
            canvas.penup();
            Ok(Value::Void)
        },
        Turtle::PenDown => {
            canvas.pendown();
            Ok(Value::Void)
        },
        Turtle::Reset => {
            canvas.reset();
            Ok(Value::Void)
        },
        Turtle::ShowTurtle => {
            canvas.show_turtle();
            Ok(Value::Void)
        },
        Turtle::HideTurtle => {
            canvas.hide_turtle();
            Ok(Value::Void)
        },
        Turtle::IsVisible => Ok(Value::from_boolean(canvas.is_visible())),
        _ => Ok(Value::Void),
    }
}

/// `(position)`: where the turtle stands.
pub fn position<U: RealUnit>(args: Vec<Value>, canvas: &mut Canvas, unit: &U) -> (result: Result<
    Value,
    ApplyError,
>)
    requires
        unit_ready(unit),
    ensures
        applied_of(result) == turtle_step(unit, Turtle::Position, value_views(args@), old(canvas)@).0,
        final(canvas)@ == old(canvas)@,
{
    no_operand(Turtle::Position, &args, canvas, unit)
}

/// `(heading)`: the heading of the turtle, in degrees to the left of east.
pub fn heading<U: RealUnit>(args: Vec<Value>, canvas: &mut Canvas, unit: &U) -> (result: Result<
    Value,
    ApplyError,
>)
    requires
        unit_ready(unit),
    ensures
        applied_of(result) == turtle_step(unit, Turtle::Heading, value_views(args@), old(canvas)@).0,
        final(canvas)@ == old(canvas)@,
{
    no_operand(Turtle::Heading, &args, canvas, unit)
}

/// `(begin-fill)`.
pub fn begin_fill<U: RealUnit>(args: Vec<Value>, canvas: &mut Canvas, unit: &U) -> (result: Result<
    Value,
    ApplyError,
>)
    requires
        unit_ready(unit),
    ensures
        applied_of(result) == turtle_step(unit, Turtle::BeginFill, value_views(args@), old(canvas)@).0,
        final(canvas)@ == turtle_step(unit, Turtle::BeginFill, value_views(args@), old(canvas)@).1,
{
    no_operand(Turtle::BeginFill, &args, canvas, unit)
}

/// `(end-fill)`.
pub fn end_fill<U: RealUnit>(args: Vec<Value>, canvas: &mut Canvas, unit: &U) -> (result: Result<
    Value,
    ApplyError,
>)
    requires
        unit_ready(unit),
    ensures
        applied_of(result) == turtle_step(unit, Turtle::EndFill, value_views(args@), old(canvas)@).0,
        final(canvas)@ == turtle_step(unit, Turtle::EndFill, value_views(args@), old(canvas)@).1,
{
    no_operand(Turtle::EndFill, &args, canvas, unit)
}

/// `(penup)`.
pub fn penup<U: RealUnit>(args: Vec<Value>, canvas: &mut Canvas, unit: &U) -> (result: Result<
    Value,
    ApplyError,
>)
    requires
        unit_ready(unit),
    ensures
        applied_of(result) == turtle_step(unit, Turtle::PenUp, value_views(args@), old(canvas)@).0,
        final(canvas)@ == turtle_step(unit, Turtle::PenUp, value_views(args@), old(canvas)@).1,
{
    no_operand(Turtle::PenUp, &args, canvas, unit)
}

/// `(pendown)`.
pub fn pendown<U: RealUnit>(args: Vec<Value>, canvas: &mut Canvas, unit: &U) -> (result: Result<
    Value,
    ApplyError,
>)
    requires
        unit_ready(unit),
    ensures
        applied_of(result) == turtle_step(unit, Turtle::PenDown, value_views(args@), old(canvas)@).0,
        final(canvas)@ == turtle_step(unit, Turtle::PenDown, value_views(args@), old(canvas)@).1,
{
    no_operand(Turtle::PenDown, &args, canvas, unit)
}

/// `(reset)`.
pub fn reset<U: RealUnit>(args: Vec<Value>, canvas: &mut Canvas, unit: &U) -> (result: Result<
    Value,
    ApplyError,
>)
    requires
        unit_ready(unit),
    ensures
        applied_of(result) == turtle_step(unit, Turtle::Reset, value_views(args@), old(canvas)@).0,
        final(canvas)@ == turtle_step(unit, Turtle::Reset, value_views(args@), old(canvas)@).1,
{
    no_operand(Turtle::Reset, &args, canvas, unit)
}

/// `(showturtle)`.
pub fn show_turtle<U: RealUnit>(args: Vec<Value>, canvas: &mut Canvas, unit: &U) -> (result: Result<
    Value,
    ApplyError,
>)
    requires
        unit_ready(unit),
    ensures
        applied_of(result) == turtle_step(
            unit,
            Turtle::ShowTurtle,
            value_views(args@),
            old(canvas)@,
        ).0,
        final(canvas)@ == turtle_step(unit, Turtle::ShowTurtle, value_views(args@), old(canvas)@).1,
{
    no_operand(Turtle::ShowTurtle, &args, canvas, unit)
}

/// `(hideturtle)`.
pub fn hide_turtle<U: RealUnit>(args: Vec<Value>, canvas: &mut Canvas, unit: &U) -> (result: Result<
    Value,
    ApplyError,
>)
    requires
        unit_ready(unit),
    ensures
        applied_of(result) == turtle_step(
            unit,
            Turtle::HideTurtle,
            value_views(args@),
            old(canvas)@,
        ).0,
        final(canvas)@ == turtle_step(unit, Turtle::HideTurtle, value_views(args@), old(canvas)@).1,
{
    no_operand(Turtle::HideTurtle, &args, canvas, unit)
}

/// `(visible?)`.
pub fn is_visible<U: RealUnit>(args: Vec<Value>, canvas: &mut Canvas, unit: &U) -> (result: Result<
    Value,
    ApplyError,
>)
    requires
        unit_ready(unit),
    ensures
        applied_of(result) == turtle_step(unit, Turtle::IsVisible, value_views(args@), old(canvas)@).0,
        final(canvas)@ == old(canvas)@,
{
    no_operand(Turtle::IsVisible, &args, canvas, unit)
}

/// Applies a procedure of the turtle to the operands `args`.
pub fn apply_turtle<U: RealUnit>(function: Turtle, args: Vec<Value>, canvas: &mut Canvas, unit: &U) -> (result:
    Result<Value, ApplyError>)
    requires
        unit_ready(unit),
    ensures
        applied_of(result) == turtle_step(unit, function, value_views(args@), old(canvas)@).0,
        final(canvas)@ == turtle_step(unit, function, value_views(args@), old(canvas)@).1,
{
    match function {
        Turtle::Forward => forward(args, canvas, unit),
        Turtle::Backward => backward(args, canvas, unit),
        Turtle::Right => right(args, canvas, unit),
        Turtle::Left => left(args, canvas, unit),
        Turtle::SetPosition => setposition(args, canvas, unit),
        Turtle::SetHeading => setheading(args, canvas, unit),
        Turtle::Position => position(args, canvas, unit),
        Turtle::Heading => heading(args, canvas, unit),
        Turtle::BeginFill => begin_fill(args, canvas, unit),
        Turtle::EndFill => end_fill(args, canvas, unit),
        Turtle::PenUp => penup(args, canvas, unit),
        Turtle::PenDown => pendown(args, canvas, unit),
        Turtle::Reset => reset(args, canvas, unit),
        Turtle::ShowTurtle => show_turtle(args, canvas, unit),
        Turtle::HideTurtle => hide_turtle(args, canvas, unit),
        Turtle::IsVisible => is_visible(args, canvas, unit),
    }
}

} // verus!
