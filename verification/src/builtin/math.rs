//! Arithmetic and numeric comparison.
use vstd::prelude::*;
use crate::data_model::Datum;
use crate::error::{
    arity_fault, invalid_number, validate_number_of_arguments, ApplyError, ApplyErrorView,
    InvalidArgument, InvalidArgumentView,
};
use crate::number::{clamped, integer_negation, times, truncated, Comparison, Number};
use crate::reals::{arithmetic, real_arith, unit_ready, RealOp, RealUnit};
use crate::value::{print_val, Val, Value};

verus! {

/// What applying a procedure gives.
pub type Applied = Result<Val, ApplyErrorView>;

/// The mathematical content of what a provided procedure returns.
pub open spec fn applied_of(result: Result<Value, ApplyError>) -> Applied {
    match result {
        Ok(value) => Ok(value@),
        Err(fault) => Err(fault@),
    }
}

/// The number that a value is, if it is one.
pub open spec fn number_of(v: Val) -> Option<Number> {
    match v {
        Val::Datum(Datum::Number(number)) => Some(number),
        _ => None,
    }
}

/// The value of a number.
pub open spec fn number_val(number: Number) -> Val {
    Val::Datum(Datum::Number(number))
}

/// The value of a boolean.
pub open spec fn boolean_val(boolean: bool) -> Val {
    Val::Datum(Datum::Boolean(boolean))
}

/// The fault of an operand of the wrong kind.
pub open spec fn wrong_type<U: RealUnit>(unit: &U, v: Val, expected: Seq<char>) -> ApplyErrorView {
    ApplyErrorView::InvalidArgument(InvalidArgumentView::InvalidType(print_val(unit, v), expected))
}

/// The fault of an operand that is no number.
pub open spec fn not_a_number<U: RealUnit>(unit: &U, v: Val) -> ApplyErrorView {
    wrong_type(unit, v, "number"@)
}

/// The fault of a wrong number of operands, if the count is one.
pub open spec fn arity<U: RealUnit>(
    unit: &U,
    name: Seq<char>,
    least: usize,
    most: usize,
    count: nat,
) -> Option<ApplyErrorView> {
    match arity_fault(name, least, most, count as usize) {
        Some(fault) => Some(ApplyErrorView::InvalidArgument(fault)),
        None => None,
    }
}

/// The four arithmetic procedures.
#[derive(Debug, Clone, Copy, PartialEq, Eq, Structural)]
pub enum Operation {
    Sum,
    Difference,
    Product,
    Quotient,
}

/// One step of an arithmetic procedure: `acc op n`.
pub open spec fn combine<U: RealUnit>(unit: &U, operation: Operation, acc: Number, n: Number) -> Number {
    match operation {
        Operation::Sum => acc.sum(n, unit),
        Operation::Difference => acc.difference(n, unit),
        Operation::Product => acc.product(n, unit),
        Operation::Quotient => acc.quotient(n, unit),
    }
}

/// The operands from `i` on folded into `acc`, left to right. An operand
/// that is no number is a fault; so is a divisor that is zero.
pub open spec fn fold<U: RealUnit>(
    unit: &U,
    operation: Operation,
    args: Seq<Val>,
    i: int,
    acc: Number,
) -> Applied
    decreases args.len() - i,
{
    if i < 0 || i >= args.len() {
        Ok(number_val(acc))
    } else {
        match number_of(args[i]) {
            None => Err(not_a_number(unit, args[i])),
            Some(n) => if operation == Operation::Quotient && n.zero() {
                Err(ApplyErrorView::InvalidArgument(InvalidArgumentView::ZeroDivisor))
            } else {
                fold(unit, operation, args, i + 1, combine(unit, operation, acc, n))
            },
        }
    }
}

/// `(+ a ...)`: the sum of the operands; 0 for none.
pub open spec fn sum_of<U: RealUnit>(unit: &U, args: Seq<Val>) -> Applied {
    fold(unit, Operation::Sum, args, 0, Number::Integer(0))
}

/// `(* a ...)`: the product of the operands; 1 for none.
pub open spec fn product_of<U: RealUnit>(unit: &U, args: Seq<Val>) -> Applied {
    fold(unit, Operation::Product, args, 0, Number::Integer(1))
}

/// `(- a)` is the negation of `a`; `(- a b ...)` takes each further operand
/// from `a`.
pub open spec fn difference_of<U: RealUnit>(unit: &U, args: Seq<Val>) -> Applied {
    match arity(unit, "#[-]"@, 1, usize::MAX, args.len()) {
        Some(fault) => Err(fault),
        None => match number_of(args[0]) {
            None => Err(not_a_number(unit, args[0])),
            Some(first) => if args.len() == 1 {
                Ok(number_val(first.negation()))
            } else {
                fold(unit, Operation::Difference, args, 1, first)
            },
        },
    }
}

/// `(/ a)` is one over `a`; `(/ a b ...)` divides `a` by each further
/// operand. A zero divisor is a fault.
pub open spec fn quotient_of<U: RealUnit>(unit: &U, args: Seq<Val>) -> Applied {
    match arity(unit, "#[/]"@, 1, usize::MAX, args.len()) {
        Some(fault) => Err(fault),
        None => match number_of(args[0]) {
            None => Err(not_a_number(unit, args[0])),
            Some(first) => if args.len() > 1 {
                fold(unit, Operation::Quotient, args, 1, first)
            } else if first.zero() {
                Err(ApplyErrorView::InvalidArgument(InvalidArgumentView::ZeroDivisor))
            } else {
                Ok(number_val(Number::Integer(1).quotient(first, unit)))
            },
        },
    }
}

/// The five numeric comparisons.
#[derive(Debug, Clone, Copy, PartialEq, Eq, Structural)]
pub enum Relation {
    Equal,
    Less,
    LessOrEqual,
    Greater,
    GreaterOrEqual,
}

impl Relation {
    /// The name that the procedure reports itself under.
    pub open spec fn label(self) -> Seq<char> {
        match self {
            Relation::Equal => "#[=]"@,
            Relation::Less => "#[<]"@,
            Relation::LessOrEqual => "#[<=]"@,
            Relation::Greater => "#[>]"@,
            Relation::GreaterOrEqual => "#[>=]"@,
        }
    }

    /// Whether `a` stands in the relation to `b`. Numbers that are not
    /// ordered stand in none of the four orders.
    pub open spec fn holds<U: RealUnit>(self, unit: &U, a: Number, b: Number) -> bool {
        match self {
            Relation::Equal => a.equal(b),
            Relation::Less => a.order(b) == Some(Comparison::Less),
            Relation::LessOrEqual => a.order(b) == Some(Comparison::Less) || a.order(b)
                == Some(Comparison::Equal),
            Relation::Greater => a.order(b) == Some(Comparison::Greater),
            Relation::GreaterOrEqual => a.order(b) == Some(Comparison::Greater) || a.order(b) == Some(Comparison::Equal),
        }
    }
}

/// Whether the operands from `i` on go on the chain that `previous` ends:
/// each order is asked of every two neighbours, equality of the first
/// operand and each other. The first pair that fails gives `#f` and ends
/// the reading; an operand read that is no number is a fault.
pub open spec fn chain<U: RealUnit>(
    unit: &U,
    relation: Relation,
    args: Seq<Val>,
    i: int,
    previous: Number,
) -> Applied
    decreases args.len() - i,
{
    if i < 0 || i >= args.len() {
        Ok(boolean_val(true))
    } else {
        match number_of(args[i]) {
            None => Err(not_a_number(unit, args[i])),
            Some(n) => if relation.holds(unit, previous, n) {
                chain(
                    unit,
                    relation,
                    args,
                    i + 1,
                    if relation == Relation::Equal {
                        previous
                    } else {
                        n
                    },
                )
            } else {
                Ok(boolean_val(false))
            },
        }
    }
}

/// `(= a b ...)`, `(< a b ...)` and the like: two operands at least.
pub open spec fn compared<U: RealUnit>(unit: &U, relation: Relation, args: Seq<Val>) -> Applied {
    match arity(unit, relation.label(), 2, usize::MAX, args.len()) {
        Some(fault) => Err(fault),
        None => match number_of(args[0]) {
            None => Err(not_a_number(unit, args[0])),
            Some(first) => chain(unit, relation, args, 1, first),
        },
    }
}

/// The fault of an operand of the wrong kind.
pub fn invalid_type<U: RealUnit>(unit: &U, value: &Value, expected: &str) -> (fault: ApplyError)
    requires
        unit_ready(unit),
    ensures
        fault@ == wrong_type(unit, value@, expected@),
{
    ApplyError::InvalidArgument(
        InvalidArgument::InvalidType(value.to_string(unit), expected.to_owned()),
    )
}

/// The fault of an operand that is no number.
pub fn not_number<U: RealUnit>(unit: &U, value: &Value) -> (fault: ApplyError)
    requires
        unit_ready(unit),
    ensures
        fault@ == not_a_number(unit, value@),
{
    ApplyError::InvalidArgument(invalid_number(value.to_string(unit).as_str()))
}

/// Checks the number of operands of the procedure `name`.
pub fn check_arity<U: RealUnit>(unit: &U, name: &str, least: usize, most: usize, count: usize) -> (checked:
    Result<(), ApplyError>)
    ensures
        match checked {
            Ok(_) => arity(unit, name@, least, most, count as nat) is None,
            Err(fault) => arity(unit, name@, least, most, count as nat) == Some(fault@),
        },
{
    match validate_number_of_arguments(name, least, most, count) {
        Ok(_) => Ok(()),
        Err(fault) => Err(ApplyError::InvalidArgument(fault)),
    }
}

fn step<U: RealUnit>(unit: &U, operation: Operation, acc: Number, n: Number) -> (result: Number)
    requires
        unit_ready(unit),
        !(operation == Operation::Quotient && n.zero()),
    ensures
        result == combine(unit, operation, acc, n),
{
    match operation {
        Operation::Sum => acc.add(n, unit),
        Operation::Difference => acc.sub(n, unit),
        Operation::Product => acc.mul(n, unit),
        Operation::Quotient => acc.div(n, unit),
    }
}

fn fold_from<U: RealUnit>(
    unit: &U,
    operation: Operation,
    args: &Vec<Value>,
    from: usize,
    start: Number,
) -> (result: Result<Value, ApplyError>)
    requires
        unit_ready(unit),
        from <= args.len(),
    ensures
        applied_of(result) == fold(unit, operation, crate::value::value_views(args@), from as int, start),
{
    let ghost views = crate::value::value_views(args@);
    let mut acc = start;
    let mut index = from;
    while index < args.len()
        invariant
            unit_ready(unit),
            from <= index <= args.len(),
            views == crate::value::value_views(args@),
            fold(unit, operation, views, index as int, acc) == fold(
                unit,
                operation,
                views,
                from as int,
                start,
            ),
        decreases args.len() - index,
    {
        match args[index].as_number() {
            None => {
                return Err(not_number(unit, &args[index]));
            },
            Some(n) => {
                let is_quotient = match operation {
                    Operation::Quotient => true,
                    _ => false,
                };
                if is_quotient && n.is_zero() {
                    return Err(ApplyError::InvalidArgument(InvalidArgument::ZeroDivisor));
                }
                acc = step(unit, operation, acc, *n);
            },
        }
        index += 1;
    }
    Ok(Value::from_number(acc))
}

/// `(+ a ...)`.
pub fn add<U: RealUnit>(args: Vec<Value>, unit: &U) -> (result: Result<Value, ApplyError>)
    requires
        unit_ready(unit),
    ensures
        applied_of(result) == sum_of(unit, crate::value::value_views(args@)),
{
    fold_from(unit, Operation::Sum, &args, 0, Number::Integer(0))
}

/// `(* a ...)`.
pub fn mul<U: RealUnit>(args: Vec<Value>, unit: &U) -> (result: Result<Value, ApplyError>)
    requires
        unit_ready(unit),
    ensures
        applied_of(result) == product_of(unit, crate::value::value_views(args@)),
{
    fold_from(unit, Operation::Product, &args, 0, Number::Integer(1))
}

/// `(- a b ...)`.
pub fn sub<U: RealUnit>(args: Vec<Value>, unit: &U) -> (result: Result<Value, ApplyError>)
    requires
        unit_ready(unit),
    ensures
        applied_of(result) == difference_of(unit, crate::value::value_views(args@)),
{
    match check_arity(unit, "#[-]", 1, usize::MAX, args.len()) {
        Err(fault) => {
            return Err(fault);
        },
        Ok(_) => {},
    }
    let first = match args[0].as_number() {
        None => {
            return Err(not_number(unit, &args[0]));
        },
        Some(first) => *first,
    };
    if args.len() == 1 {
        Ok(Value::from_number(first.neg()))
    } else {
        fold_from(unit, Operation::Difference, &args, 1, first)
    }
}

/// `(/ a b ...)`.
pub fn div<U: RealUnit>(args: Vec<Value>, unit: &U) -> (result: Result<Value, ApplyError>)
    requires
        unit_ready(unit),
    ensures
        applied_of(result) == quotient_of(unit, crate::value::value_views(args@)),
{
    match check_arity(unit, "#[/]", 1, usize::MAX, args.len()) {
        Err(fault) => {
            return Err(fault);
        },
        Ok(_) => {},
    }
    let first = match args[0].as_number() {
        None => {
            return Err(not_number(unit, &args[0]));
        },
        Some(first) => *first,
    };
    if args.len() > 1 {
        fold_from(unit, Operation::Quotient, &args, 1, first)
    } else if first.is_zero() {
        Err(ApplyError::InvalidArgument(InvalidArgument::ZeroDivisor))
    } else {
        Ok(Value::from_number(Number::Integer(1).div(first, unit)))
    }
}

fn related<U: RealUnit>(unit: &U, relation: Relation, a: &Number, b: &Number) -> (yes: bool)
    requires
        unit_ready(unit),
    ensures
        yes == relation.holds(unit, *a, *b),
{
    match relation {
        Relation::Equal => a.eq(b),
        Relation::Less => match a.compare(b) {
            Some(Comparison::Less) => true,
            _ => false,
        },
        Relation::LessOrEqual => match a.compare(b) {
            Some(Comparison::Less) => true,
            Some(Comparison::Equal) => true,
            _ => false,
        },
        Relation::Greater => match a.compare(b) {
            Some(Comparison::Greater) => true,
            _ => false,
        },
        Relation::GreaterOrEqual => match a.compare(b) {
            Some(Comparison::Greater) => true,
            Some(Comparison::Equal) => true,
            _ => false,
        },
    }
}

fn label_of(relation: Relation) -> (label: &'static str)
    ensures
        label@ == relation.label(),
{
    match relation {
        Relation::Equal => "#[=]",
        Relation::Less => "#[<]",
        Relation::LessOrEqual => "#[<=]",
        Relation::Greater => "#[>]",
        Relation::GreaterOrEqual => "#[>=]",
    }
}

/// The comparison `relation` of the operands, taken as a chain.
pub fn compare_all<U: RealUnit>(relation: Relation, args: Vec<Value>, unit: &U) -> (result: Result<
    Value,
    ApplyError,
>)
    requires
        unit_ready(unit),
    ensures
        applied_of(result) == compared(unit, relation, crate::value::value_views(args@)),
{
    let ghost views = crate::value::value_views(args@);
    match check_arity(unit, label_of(relation), 2, usize::MAX, args.len()) {
        Err(fault) => {
            return Err(fault);
        },
        Ok(_) => {},
    }
    let first = match args[0].as_number() {
        None => {
            return Err(not_number(unit, &args[0]));
        },
        Some(first) => *first,
    };
    let keeps_first = match relation {
        Relation::Equal => true,
        _ => false,
    };
    let mut previous = first;
    let mut index: usize = 1;
    while index < args.len()
        invariant
            unit_ready(unit),
            1 <= index <= args.len(),
            views == crate::value::value_views(args@),
            keeps_first == (relation == Relation::Equal),
            compared(unit, relation, views) == chain(unit, relation, views, 1, first),
            chain(unit, relation, views, index as int, previous) == chain(
                unit,
                relation,
                views,
                1,
                first,
            ),
        decreases args.len() - index,
    {
        match args[index].as_number() {
            None => {
                return Err(not_number(unit, &args[index]));
            },
            Some(n) => {
                if !related(unit, relation, &previous, n) {
                    return Ok(Value::from_boolean(false));
                }
                if !keeps_first {
                    previous = *n;
                }
            },
        }
        index += 1;
    }
    Ok(Value::from_boolean(true))
}

/// `(= a b ...)`.
pub fn equal<U: RealUnit>(args: Vec<Value>, unit: &U) -> (result: Result<Value, ApplyError>)
    requires
        unit_ready(unit),
    ensures
        applied_of(result) == compared(unit, Relation::Equal, crate::value::value_views(args@)),
{
    compare_all(Relation::Equal, args, unit)
}

/// `(< a b ...)`.
pub fn less_than<U: RealUnit>(args: Vec<Value>, unit: &U) -> (result: Result<Value, ApplyError>)
    requires
        unit_ready(unit),
    ensures
        applied_of(result) == compared(unit, Relation::Less, crate::value::value_views(args@)),
{
    compare_all(Relation::Less, args, unit)
}

/// `(<= a b ...)`.
pub fn less_than_or_equal<U: RealUnit>(args: Vec<Value>, unit: &U) -> (result: Result<
    Value,
    ApplyError,
>)
    requires
        unit_ready(unit),
    ensures
        applied_of(result) == compared(
            unit,
            Relation::LessOrEqual,
            crate::value::value_views(args@),
        ),
{
    compare_all(Relation::LessOrEqual, args, unit)
}

/// `(> a b ...)`.
pub fn greater_than<U: RealUnit>(args: Vec<Value>, unit: &U) -> (result: Result<Value, ApplyError>)
    requires
        unit_ready(unit),
    ensures
        applied_of(result) == compared(unit, Relation::Greater, crate::value::value_views(args@)),
{
    compare_all(Relation::Greater, args, unit)
}

/// `(>= a b ...)`.
pub fn greater_than_or_equal<U: RealUnit>(args: Vec<Value>, unit: &U) -> (result: Result<
    Value,
    ApplyError,
>)
    requires
        unit_ready(unit),
    ensures
        applied_of(result) == compared(
            unit,
            Relation::GreaterOrEqual,
            crate::value::value_views(args@),
        ),
{
    compare_all(Relation::GreaterOrEqual, args, unit)
}

/// The integer that a value is, if it is one.
pub open spec fn integer_of(v: Val) -> Option<i32> {
    match v {
        Val::Datum(Datum::Number(Number::Integer(i))) => Some(i),
        _ => None,
    }
}

/// `(abs x)`: `x` without its sign, an integer saturating.
pub open spec fn abs_of<U: RealUnit>(unit: &U, args: Seq<Val>) -> Applied {
    match arity(unit, "#[abs]"@, 1, 1, args.len()) {
        Some(fault) => Err(fault),
        None => match number_of(args[0]) {
            None => Err(not_a_number(unit, args[0])),
            Some(Number::Integer(i)) => Ok(
                number_val(
                    Number::Integer(
                        if i < 0 {
                            integer_negation(i)
                        } else {
                            i
                        },
                    ),
                ),
            ),
            Some(Number::Real(r)) => Ok(number_val(Number::Real(r.absolute()))),
            Some(Number::Complex(_, _)) => Err(wrong_type(unit, args[0], "real"@)),
        },
    }
}

/// The name that `min` or `max` reports itself under.
pub open spec fn extreme_label(greatest: bool) -> Seq<char> {
    if greatest {
        "#[max]"@
    } else {
        "#[min]"@
    }
}

/// Whether `candidate` takes the place of `best`: it is greater, for
/// `max`, or less, for `min`.
pub open spec fn beats<U: RealUnit>(unit: &U, greatest: bool, candidate: Number, best: Number) -> bool {
    candidate.order(best) == Some(
        if greatest {
            Comparison::Greater
        } else {
            Comparison::Less
        },
    )
}

/// The operands from `i` on held against `best`, left to right. An
/// operand that is no number, or is complex, is a fault.
pub open spec fn extreme_from<U: RealUnit>(
    unit: &U,
    greatest: bool,
    args: Seq<Val>,
    i: int,
    best: Number,
) -> Applied
    decreases args.len() - i,
{
    if i < 0 || i >= args.len() {
        Ok(number_val(best))
    } else {
        match number_of(args[i]) {
            None => Err(not_a_number(unit, args[i])),
            Some(Number::Complex(_, _)) => Err(wrong_type(unit, args[i], "real"@)),
            Some(n) => extreme_from(
                unit,
                greatest,
                args,
                i + 1,
                if beats(unit, greatest, n, best) {
                    n
                } else {
                    best
                },
            ),
        }
    }
}

/// `(min a ...)` and `(max a ...)`: the least or the greatest operand, the
/// earlier of two that stand equal.
pub open spec fn extreme_of<U: RealUnit>(unit: &U, greatest: bool, args: Seq<Val>) -> Applied {
    match arity(unit, extreme_label(greatest), 1, usize::MAX, args.len()) {
        Some(fault) => Err(fault),
        None => match number_of(args[0]) {
            None => Err(not_a_number(unit, args[0])),
            Some(Number::Complex(_, _)) => Err(wrong_type(unit, args[0], "real"@)),
            Some(first) => extreme_from(unit, greatest, args, 1, first),
        },
    }
}

/// The three divisions of integers.
#[derive(Debug, Clone, Copy, PartialEq, Eq, Structural)]
pub enum Division {
    Quotient,
    Remainder,
    Modulo,
}

impl Division {
    /// The name that the procedure reports itself under.
    pub open spec fn label(self) -> Seq<char> {
        match self {
            Division::Quotient => "#[quotient]"@,
            Division::Remainder => "#[remainder]"@,
            Division::Modulo => "#[modulo]"@,
        }
    }
}

/// What is left of `a` after the quotient toward zero by `b` is taken
/// out: it has the sign of `a`.
pub open spec fn remainder_of(a: int, b: int) -> int {
    a - b * truncated(a, b)
}

/// What is left of `a` after the quotient toward minus infinity by `b` is
/// taken out: it has the sign of `b`.
pub open spec fn modulo_of(a: int, b: int) -> int {
    let r = remainder_of(a, b);
    if r != 0 && ((r < 0) != (b < 0)) {
        r + b
    } else {
        r
    }
}

/// The result of a division of two integers, the divisor not zero.
pub open spec fn divided(which: Division, a: i32, b: i32) -> i32 {
    match which {
        Division::Quotient => crate::number::integer_quotient(a, b),
        Division::Remainder => remainder_of(a as int, b as int) as i32,
        Division::Modulo => modulo_of(a as int, b as int) as i32,
    }
}

/// `(quotient a b)`, `(remainder a b)` and `(modulo a b)`, on integers.
pub open spec fn division_of<U: RealUnit>(unit: &U, which: Division, args: Seq<Val>) -> Applied {
    match arity(unit, which.label(), 2, 2, args.len()) {
        Some(fault) => Err(fault),
        None => match integer_of(args[0]) {
            None => Err(wrong_type(unit, args[0], "integer"@)),
            Some(a) => match integer_of(args[1]) {
                None => Err(wrong_type(unit, args[1], "integer"@)),
                Some(b) => if b == 0 {
                    Err(ApplyErrorView::InvalidArgument(InvalidArgumentView::ZeroDivisor))
                } else {
                    Ok(number_val(Number::Integer(divided(which, a, b))))
                },
            },
        },
    }
}

/// `base` multiplied by itself `exponent` times.
pub open spec fn power(base: int, exponent: nat) -> int
    decreases exponent,
{
    if exponent == 0 {
        1
    } else {
        power(base, (exponent - 1) as nat) * base
    }
}

/// `(expt base exponent)`: an integer to an integer power that is not
/// negative is an integer, saturating; any other power of reals is the
/// real that the unit gives.
pub open spec fn expt_of<U: RealUnit>(unit: &U, args: Seq<Val>) -> Applied {
    match arity(unit, "#[expt]"@, 2, 2, args.len()) {
        Some(fault) => Err(fault),
        None => match number_of(args[0]) {
            None => Err(not_a_number(unit, args[0])),
            Some(Number::Complex(_, _)) => Err(wrong_type(unit, args[0], "real"@)),
            Some(base) => match number_of(args[1]) {
                None => Err(not_a_number(unit, args[1])),
                Some(Number::Complex(_, _)) => Err(wrong_type(unit, args[1], "real"@)),
                Some(exponent) => match (base, exponent) {
                    (Number::Integer(b), Number::Integer(e)) => if e >= 0 {
                        Ok(number_val(Number::Integer(clamped(power(b as int, e as nat)))))
                    } else {
                        Ok(
                            number_val(
                                Number::Real(
                                    real_arith(unit, RealOp::Pow, base.re(), exponent.re()),
                                ),
                            ),
                        )
                    },
                    _ => Ok(
                        number_val(
                            Number::Real(
                                real_arith(unit, RealOp::Pow, base.re(), exponent.re()),
                            ),
                        ),
                    ),
                },
            },
        },
    }
}

/// `(abs x)`.
pub fn abs<U: RealUnit>(args: Vec<Value>, unit: &U) -> (result: Result<Value, ApplyError>)
    requires
        unit_ready(unit),
    ensures
        applied_of(result) == abs_of(unit, crate::value::value_views(args@)),
{
    match check_arity(unit, "#[abs]", 1, 1, args.len()) {
        Err(fault) => {
            return Err(fault);
        },
        Ok(_) => {},
    }
    match args[0].as_number() {
        None => Err(not_number(unit, &args[0])),
        Some(Number::Integer(i)) => {
            if *i < 0 {
                Ok(Value::from_number(Number::Integer(*i).neg()))
            } else {
                Ok(Value::from_number(Number::Integer(*i)))
            }
        },
        Some(Number::Real(r)) => Ok(Value::from_number(Number::Real(r.abs()))),
        Some(Number::Complex(_, _)) => Err(invalid_type(unit, &args[0], "real")),
    }
}

fn is_better<U: RealUnit>(unit: &U, greatest: bool, candidate: &Number, best: &Number) -> (yes: bool)
    requires
        unit_ready(unit),
    ensures
        yes == beats(unit, greatest, *candidate, *best),
{
    match candidate.compare(best) {
        Some(Comparison::Greater) => greatest,
        Some(Comparison::Less) => !greatest,
        _ => false,
    }
}

/// `(min a ...)` where `greatest` is unset, `(max a ...)` where it is set.
pub fn extreme<U: RealUnit>(greatest: bool, args: Vec<Value>, unit: &U) -> (result: Result<
    Value,
    ApplyError,
>)
    requires
        unit_ready(unit),
    ensures
        applied_of(result) == extreme_of(unit, greatest, crate::value::value_views(args@)),
{
    let ghost views = crate::value::value_views(args@);
    let label = if greatest {
        "#[max]"
    } else {
        "#[min]"
    };
    match check_arity(unit, label, 1, usize::MAX, args.len()) {
        Err(fault) => {
            return Err(fault);
        },
        Ok(_) => {},
    }
    let first = match args[0].as_number() {
        None => {
            return Err(not_number(unit, &args[0]));
        },
        Some(Number::Complex(_, _)) => {
            return Err(invalid_type(unit, &args[0], "real"));
        },
        Some(first) => *first,
    };
    let mut best = first;
    let mut index: usize = 1;
    while index < args.len()
        invariant
            unit_ready(unit),
            1 <= index <= args.len(),
            views == crate::value::value_views(args@),
            extreme_of(unit, greatest, views) == extreme_from(unit, greatest, views, 1, first),
            extreme_from(unit, greatest, views, index as int, best) == extreme_from(
                unit,
                greatest,
                views,
                1,
                first,
            ),
        decreases args.len() - index,
    {
        match args[index].as_number() {
            None => {
                return Err(not_number(unit, &args[index]));
            },
            Some(Number::Complex(_, _)) => {
                return Err(invalid_type(unit, &args[index], "real"));
            },
            Some(n) => {
                if is_better(unit, greatest, n, &best) {
                    best = *n;
                }
            },
        }
        index += 1;
    }
    Ok(Value::from_number(best))
}

fn division_label(which: Division) -> (label: &'static str)
    ensures
        label@ == which.label(),
{
    match which {
        Division::Quotient => "#[quotient]",
        Division::Remainder => "#[remainder]",
        Division::Modulo => "#[modulo]",
    }
}

fn divide_by(which: Division, a: i32, b: i32) -> (result: i32)
    requires
        b != 0,
    ensures
        result == divided(which, a, b),
{
    let quotient = Number::Integer(a).quotient_by(b);
    match which {
        Division::Quotient => quotient,
        _ => {
            let wide_a: i64 = a as i64;
            let wide_b: i64 = b as i64;
            let exact: i64 = if a == i32::MIN && b == -1 {
                0x8000_0000
            } else {
                quotient as i64
            };
            assert(exact == truncated(a as int, b as int)) by {
                lemma_truncated_fits(a as int, b as int);
            }
            assert(-0x8000_0000 <= wide_b * exact <= 0x1_0000_0000_0000 && -0x8000_0000 <= wide_a
                - wide_b * exact <= 0x7fff_ffff && (wide_a - wide_b * exact < 0 ==> wide_a
                - wide_b * exact > wide_b || wide_b > 0) && (wide_a - wide_b * exact > 0 ==> wide_a
                - wide_b * exact < wide_b || wide_b < 0)) by {
                lemma_remainder_bounds(a as int, b as int);
            }
            let remainder: i64 = wide_a - wide_b * exact;
            match which {
                Division::Remainder => remainder as i32,
                _ => {
                    if remainder != 0 && ((remainder < 0) != (wide_b < 0)) {
                        (remainder + wide_b) as i32
                    } else {
                        remainder as i32
                    }
                },
            }
        },
    }
}

proof fn lemma_truncated_fits(a: int, b: int)
    requires
        i32::MIN <= a <= i32::MAX,
        i32::MIN <= b <= i32::MAX,
        b != 0,
    ensures
        a == i32::MIN && b == -1 ==> truncated(a, b) == 0x8000_0000,
        !(a == i32::MIN && b == -1) ==> i32::MIN <= truncated(a, b) <= i32::MAX,
{
    let m = if a >= 0 {
        a
    } else {
        -a
    };
    let c = if b > 0 {
        b
    } else {
        -b
    };
    assert(0 <= m / c <= m && (c > 1 && m > 0 ==> m / c < m) && (c == 1 ==> m / c == m))
        by (nonlinear_arith)
        requires
            m >= 0,
            c >= 1,
    ;
}

proof fn lemma_remainder_bounds(a: int, b: int)
    requires
        i32::MIN <= a <= i32::MAX,
        i32::MIN <= b <= i32::MAX,
        b != 0,
    ensures
        -0x8000_0000 <= b * truncated(a, b) <= 0x1_0000_0000_0000,
        a >= 0 ==> 0 <= remainder_of(a, b),
        a >= 0 && b > 0 ==> remainder_of(a, b) < b,
        a >= 0 && b < 0 ==> remainder_of(a, b) < -b,
        a < 0 ==> remainder_of(a, b) <= 0,
        a < 0 && b > 0 ==> -b < remainder_of(a, b),
        a < 0 && b < 0 ==> b < remainder_of(a, b),
{
    if a >= 0 && b > 0 {
        assert(0 <= a - b * (a / b) < b && 0 <= b * (a / b) <= a) by (nonlinear_arith)
            requires
                a >= 0,
                b > 0,
        ;
    } else if a >= 0 {
        let c = -b;
        assert(0 <= a - c * (a / c) < c && 0 <= c * (a / c) <= a) by (nonlinear_arith)
            requires
                a >= 0,
                c > 0,
        ;
        assert(b * (-(a / c)) == c * (a / c)) by (nonlinear_arith)
            requires
                c == -b,
        ;
    } else if b > 0 {
        let m = -a;
        assert(0 <= m - b * (m / b) < b && 0 <= b * (m / b) <= m) by (nonlinear_arith)
            requires
                m >= 0,
                b > 0,
        ;
        assert(b * (-(m / b)) == -(b * (m / b))) by (nonlinear_arith);
    } else {
        let m = -a;
        let c = -b;
        assert(0 <= m - c * (m / c) < c && 0 <= c * (m / c) <= m) by (nonlinear_arith)
            requires
                m >= 0,
                c > 0,
        ;
        assert(b * (m / c) == -(c * (m / c))) by (nonlinear_arith)
            requires
                c == -b,
        ;
    }
}

/// `(quotient a b)`, `(remainder a b)` or `(modulo a b)`.
pub fn divide_integers<U: RealUnit>(which: Division, args: Vec<Value>, unit: &U) -> (result: Result<
    Value,
    ApplyError,
>)
    requires
        unit_ready(unit),
    ensures
        applied_of(result) == division_of(unit, which, crate::value::value_views(args@)),
{
    match check_arity(unit, division_label(which), 2, 2, args.len()) {
        Err(fault) => {
            return Err(fault);
        },
        Ok(_) => {},
    }
    let a = match args[0].as_number() {
        Some(Number::Integer(a)) => *a,
        _ => {
            return Err(invalid_type(unit, &args[0], "integer"));
        },
    };
    let b = match args[1].as_number() {
        Some(Number::Integer(b)) => *b,
        _ => {
            return Err(invalid_type(unit, &args[1], "integer"));
        },
    };
    if b == 0 {
        Err(ApplyError::InvalidArgument(InvalidArgument::ZeroDivisor))
    } else {
        Ok(Value::from_number(Number::Integer(divide_by(which, a, b))))
    }
}

proof fn lemma_power_of_minus_one(exponent: nat)
    ensures
        power(-1, exponent) == 1 || power(-1, exponent) == -1,
    decreases exponent,
{
    if exponent > 0 {
        lemma_power_of_minus_one((exponent - 1) as nat);
    }
}

/// A product may be held to the machine's range factor by factor, where
/// the factor that has been held is multiplied by anything but minus one.
proof fn lemma_clamped_step(x: int, b: int)
    requires
        i32::MIN <= b <= i32::MAX,
        b != -1 || i32::MIN <= x <= i32::MAX,
    ensures
        clamped(clamped(x) * b) == clamped(x * b),
{
    if x > i32::MAX {
        assert(b >= 1 ==> x * b > i32::MAX && i32::MAX * b >= i32::MAX) by (nonlinear_arith)
            requires
                x > i32::MAX,
        ;
        assert(b <= -2 ==> x * b < i32::MIN && i32::MAX * b < i32::MIN) by (nonlinear_arith)
            requires
                x > i32::MAX,
        ;
        assert(b == 0 ==> x * b == 0 && i32::MAX * b == 0);
    } else if x < i32::MIN {
        assert(b >= 1 ==> x * b < i32::MIN && i32::MIN * b <= i32::MIN) by (nonlinear_arith)
            requires
                x < i32::MIN,
        ;
        assert(b <= -2 ==> x * b > i32::MAX && i32::MIN * b > i32::MAX) by (nonlinear_arith)
            requires
                x < i32::MIN,
        ;
        assert(b == 0 ==> x * b == 0 && i32::MIN * b == 0);
    }
}

fn integer_power(base: i32, exponent: i32) -> (result: i32)
    requires
        exponent >= 0,
    ensures
        result == clamped(power(base as int, exponent as nat)),
{
    let mut result: i32 = 1;
    let mut done: i32 = 0;
    while done < exponent
        invariant
            0 <= done <= exponent,
            result == clamped(power(base as int, done as nat)),
        decreases exponent - done,
    {
        proof {
            if base == -1 {
                lemma_power_of_minus_one(done as nat);
            }
            lemma_clamped_step(power(base as int, done as nat), base as int);
        }
        result = times(result, base);
        done += 1;
    }
    result
}

/// `(expt base exponent)`.
pub fn expt<U: RealUnit>(args: Vec<Value>, unit: &U) -> (result: Result<Value, ApplyError>)
    requires
        unit_ready(unit),
    ensures
        applied_of(result) == expt_of(unit, crate::value::value_views(args@)),
{
    match check_arity(unit, "#[expt]", 2, 2, args.len()) {
        Err(fault) => {
            return Err(fault);
        },
        Ok(_) => {},
    }
    let base = match args[0].as_number() {
        None => {
            return Err(not_number(unit, &args[0]));
        },
        Some(Number::Complex(_, _)) => {
            return Err(invalid_type(unit, &args[0], "real"));
        },
        Some(base) => *base,
    };
    let exponent = match args[1].as_number() {
        None => {
            return Err(not_number(unit, &args[1]));
        },
        Some(Number::Complex(_, _)) => {
            return Err(invalid_type(unit, &args[1], "real"));
        },
        Some(exponent) => *exponent,
    };
    match (base, exponent) {
        (Number::Integer(b), Number::Integer(e)) => {
            if e >= 0 {
                return Ok(Value::from_number(Number::Integer(integer_power(b, e))));
            }
        },
        _ => {},
    }
    let raised = arithmetic(unit, RealOp::Pow, base.real_part(), exponent.real_part());
    Ok(Value::from_number(Number::Real(raised)))
}

} // verus!
