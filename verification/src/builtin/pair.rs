//! Pairs, lists and the predicates on the kind of a value.
use vstd::prelude::*;
use crate::builtin::math::{
    applied_of, arity, boolean_val, check_arity, invalid_type, wrong_type, Applied,
};
use crate::data_model::{link_views, list_of, Datum, Link};
use crate::error::ApplyError;
use crate::parser::build_list;
use crate::reals::{unit_ready, RealUnit};
use crate::value::{value_views, Val, Value};

verus! {

/// `(pair? x)`.
pub open spec fn is_pair_of<U: RealUnit>(unit: &U, args: Seq<Val>) -> Applied {
    match arity(unit, "#[pair?]"@, 1, 1, args.len()) {
        Some(fault) => Err(fault),
        None => Ok(boolean_val(args[0] matches Val::Datum(Datum::Pair(_, _)))),
    }
}

/// `(car p)`: the first slot of a pair.
pub open spec fn car_of<U: RealUnit>(unit: &U, args: Seq<Val>) -> Applied {
    match arity(unit, "#[car]"@, 1, 1, args.len()) {
        Some(fault) => Err(fault),
        None => match args[0] {
            Val::Datum(Datum::Pair(car, _)) => Ok(Val::Datum(*car)),
            other => Err(wrong_type(unit, other, "pair"@)),
        },
    }
}

/// `(cdr p)`: the second slot of a pair.
pub open spec fn cdr_of<U: RealUnit>(unit: &U, args: Seq<Val>) -> Applied {
    match arity(unit, "#[cdr]"@, 1, 1, args.len()) {
        Some(fault) => Err(fault),
        None => match args[0] {
            Val::Datum(Datum::Pair(_, cdr)) => Ok(Val::Datum(*cdr)),
            other => Err(wrong_type(unit, other, "pair"@)),
        },
    }
}

/// The expressions that the values from `i` on are; the first that is no
/// expression is a fault, for a pair holds expressions only.
pub open spec fn data_of<U: RealUnit>(unit: &U, args: Seq<Val>, i: int) -> Result<
    Seq<Datum>,
    ApplyErrorView,
>
    decreases args.len() - i,
{
    if i < 0 || i >= args.len() {
        Ok(Seq::empty())
    } else {
        match args[i] {
            Val::Datum(d) => match data_of(unit, args, i + 1) {
                Ok(rest) => Ok(seq![d] + rest),
                Err(fault) => Err(fault),
            },
            other => Err(wrong_type(unit, other, "expression"@)),
        }
    }
}

/// `(cons a d)`: a new pair.
pub open spec fn cons_of<U: RealUnit>(unit: &U, args: Seq<Val>) -> Applied {
    match arity(unit, "#[cons]"@, 2, 2, args.len()) {
        Some(fault) => Err(fault),
        None => match data_of(unit, args, 0) {
            Ok(data) => Ok(Val::Datum(Datum::Pair(Box::new(data[0]), Box::new(data[1])))),
            Err(fault) => Err(fault),
        },
    }
}

/// `(list a ...)`: the list of the operands.
pub open spec fn list_from<U: RealUnit>(unit: &U, args: Seq<Val>) -> Applied {
    match data_of(unit, args, 0) {
        Ok(data) => Ok(Val::Datum(list_of(data, Datum::Nil))),
        Err(fault) => Err(fault),
    }
}

/// `(null? x)`: whether `x` is the empty list.
pub open spec fn is_null_of<U: RealUnit>(unit: &U, args: Seq<Val>) -> Applied {
    match arity(unit, "#[null?]"@, 1, 1, args.len()) {
        Some(fault) => Err(fault),
        None => Ok(boolean_val(args[0] == Val::Datum(Datum::Nil))),
    }
}

/// The number of elements of a list in machine integers: the greatest
/// integer where the count is beyond it.
pub open spec fn count_of(d: Datum) -> i32 {
    if crate::data_model::items(d).len() <= i32::MAX {
        crate::data_model::items(d).len() as i32
    } else {
        i32::MAX
    }
}

/// `(length l)`: the number of elements of a list.
pub open spec fn length_of<U: RealUnit>(unit: &U, args: Seq<Val>) -> Applied {
    match arity(unit, "#[length]"@, 1, 1, args.len()) {
        Some(fault) => Err(fault),
        None => match args[0] {
            Val::Datum(d) => Ok(Val::Datum(Datum::Number(crate::number::Number::Integer(count_of(d))))),
            other => Err(wrong_type(unit, other, "list"@)),
        },
    }
}

/// `(not x)`: whether `x` is `#f`.
pub open spec fn not_of<U: RealUnit>(unit: &U, args: Seq<Val>) -> Applied {
    match arity(unit, "#[not]"@, 1, 1, args.len()) {
        Some(fault) => Err(fault),
        None => Ok(boolean_val(args[0] == boolean_val(false))),
    }
}

/// The kinds of value that a predicate asks for.
#[derive(Debug, Clone, Copy, PartialEq, Eq, Structural)]
pub enum Kind {
    Number,
    Symbol,
    String,
    Boolean,
    Procedure,
    Vector,
    Integer,
    Real,
    Complex,
}

impl Kind {
    /// The name that the predicate reports itself under.
    pub open spec fn label(self) -> Seq<char> {
        match self {
            Kind::Number => "#[number?]"@,
            Kind::Symbol => "#[symbol?]"@,
            Kind::String => "#[string?]"@,
            Kind::Boolean => "#[boolean?]"@,
            Kind::Procedure => "#[procedure?]"@,
            Kind::Vector => "#[vector?]"@,
            Kind::Integer => "#[integer?]"@,
            Kind::Real => "#[real?]"@,
            Kind::Complex => "#[complex?]"@,
        }
    }

    /// Whether `v` is of the kind.
    pub open spec fn holds(self, v: Val) -> bool {
        match self {
            Kind::Number => v matches Val::Datum(Datum::Number(_)),
            Kind::Symbol => v matches Val::Datum(Datum::Symbol(_)),
            Kind::String => v matches Val::Datum(Datum::String(_)),
            Kind::Boolean => v matches Val::Datum(Datum::Boolean(_)),
            Kind::Procedure => crate::value::applicable(v),
            Kind::Vector => v matches Val::Datum(Datum::Vector(_)),
            Kind::Integer => v matches Val::Datum(Datum::Number(crate::number::Number::Integer(_))),
            Kind::Real => v matches Val::Datum(Datum::Number(n)) && !(n is Complex),
            Kind::Complex => v matches Val::Datum(Datum::Number(_)),
        }
    }
}

/// `(number? x)` and the like: whether `x` is of the kind.
pub open spec fn kind_of<U: RealUnit>(unit: &U, kind: Kind, args: Seq<Val>) -> Applied {
    match arity(unit, kind.label(), 1, 1, args.len()) {
        Some(fault) => Err(fault),
        None => Ok(boolean_val(kind.holds(args[0]))),
    }
}

use crate::error::ApplyErrorView;

/// `(pair? x)`.
pub fn is_pair<U: RealUnit>(args: Vec<Value>, unit: &U) -> (result: Result<Value, ApplyError>)
    requires
        unit_ready(unit),
    ensures
        applied_of(result) == is_pair_of(unit, value_views(args@)),
{
    match check_arity(unit, "#[pair?]", 1, 1, args.len()) {
        Err(fault) => Err(fault),
        Ok(_) => Ok(Value::from_boolean(args[0].as_pair().is_some())),
    }
}

/// `(car p)`.
pub fn car<U: RealUnit>(args: Vec<Value>, unit: &U) -> (result: Result<Value, ApplyError>)
    requires
        unit_ready(unit),
    ensures
        applied_of(result) == car_of(unit, value_views(args@)),
{
    match check_arity(unit, "#[car]", 1, 1, args.len()) {
        Err(fault) => Err(fault),
        Ok(_) => match args[0].as_pair() {
            Some(pair) => Ok(Value::from_link(pair.car())),
            None => Err(invalid_type(unit, &args[0], "pair")),
        },
    }
}

/// `(cdr p)`.
pub fn cdr<U: RealUnit>(args: Vec<Value>, unit: &U) -> (result: Result<Value, ApplyError>)
    requires
        unit_ready(unit),
    ensures
        applied_of(result) == cdr_of(unit, value_views(args@)),
{
    match check_arity(unit, "#[cdr]", 1, 1, args.len()) {
        Err(fault) => Err(fault),
        Ok(_) => match args[0].as_pair() {
            Some(pair) => Ok(Value::from_link(pair.cdr())),
            None => Err(invalid_type(unit, &args[0], "pair")),
        },
    }
}

/// The mathematical content of the slots that `slots_of` returns.
pub open spec fn slots_result(slots: Result<Vec<Link>, ApplyError>) -> Result<
    Seq<Datum>,
    ApplyErrorView,
> {
    match slots {
        Ok(slots) => Ok(link_views(slots@)),
        Err(fault) => Err(fault@),
    }
}

/// The slots that hold the expressions which the values from `from` on are.
pub fn slots_of<U: RealUnit>(args: &Vec<Value>, from: usize, unit: &U) -> (slots: Result<
    Vec<Link>,
    ApplyError,
>)
    requires
        unit_ready(unit),
        from <= args.len(),
    ensures
        slots_result(slots) == data_of(unit, value_views(args@), from as int),
{
    let ghost views = value_views(args@);
    let mut slots: Vec<Link> = Vec::new();
    let mut index = args.len();
    assert(link_views(slots@) =~= Seq::<Datum>::empty());
    // The operands are read from the last to the first, so that the first
    // fault met is not yet known to be the first of all: the faults are
    // therefore looked for in a pass of their own.
    let mut probe = from;
    while probe < args.len()
        invariant
            unit_ready(unit),
            from <= probe <= args.len(),
            views == value_views(args@),
            forall|j: int| from <= j < probe ==> (#[trigger] views[j]) is Datum,
        decreases args.len() - probe,
    {
        match &args[probe] {
            Value::Expression(_) => {},
            _ => {
                proof {
                    lemma_data_of_fault(unit, views, from as int, probe as int);
                }
                return Err(invalid_type(unit, &args[probe], "expression"));
            },
        }
        probe += 1;
    }
    while index > from
        invariant
            from <= index <= args.len(),
            views == value_views(args@),
            forall|j: int| from <= j < args.len() ==> (#[trigger] views[j]) is Datum,
            data_of(unit, views, index as int) == Ok::<Seq<Datum>, ApplyErrorView>(
                link_views(slots@),
            ),
        decreases index,
    {
        index -= 1;
        let ghost before = link_views(slots@);
        match &args[index] {
            Value::Expression(expression) => {
                slots.insert(0, expression.content.duplicate());
                assert(link_views(slots@) =~= seq![expression@] + before);
            },
            _ => {},
        }
    }
    Ok(slots)
}

proof fn lemma_data_of_fault<U: RealUnit>(unit: &U, args: Seq<Val>, from: int, at: int)
    requires
        0 <= from <= at < args.len(),
        forall|j: int| from <= j < at ==> (#[trigger] args[j]) is Datum,
        !(args[at] is Datum),
    ensures
        data_of(unit, args, from) == Err::<Seq<Datum>, ApplyErrorView>(
            wrong_type(unit, args[at], "expression"@),
        ),
    decreases at - from,
{
    if from < at {
        lemma_data_of_fault(unit, args, from + 1, at);
    }
}

/// `(cons a d)`.
pub fn cons<U: RealUnit>(args: Vec<Value>, unit: &U) -> (result: Result<Value, ApplyError>)
    requires
        unit_ready(unit),
    ensures
        applied_of(result) == cons_of(unit, value_views(args@)),
{
    match check_arity(unit, "#[cons]", 2, 2, args.len()) {
        Err(fault) => Err(fault),
        Ok(_) => match slots_of(&args, 0, unit) {
            Ok(slots) => {
                assert(link_views(slots@).len() == slots@.len());
                assert(slots@.len() == 2) by {
                    lemma_data_of_len(unit, value_views(args@), 0);
                }
                Ok(Value::from_link(Link::new_pair(slots[0].duplicate(), slots[1].duplicate())))
            },
            Err(fault) => Err(fault),
        },
    }
}

proof fn lemma_data_of_len<U: RealUnit>(unit: &U, args: Seq<Val>, from: int)
    requires
        0 <= from <= args.len(),
    ensures
        data_of(unit, args, from) matches Ok(data) ==> data.len() == args.len() - from,
    decreases args.len() - from,
{
    if from < args.len() {
        lemma_data_of_len(unit, args, from + 1);
    }
}

/// `(list a ...)`.
pub fn list<U: RealUnit>(args: Vec<Value>, unit: &U) -> (result: Result<Value, ApplyError>)
    requires
        unit_ready(unit),
    ensures
        applied_of(result) == list_from(unit, value_views(args@)),
{
    match slots_of(&args, 0, unit) {
        Ok(slots) => Ok(Value::from_link(build_list(&slots, Link::Nil))),
        Err(fault) => Err(fault),
    }
}

/// `(length l)`.
pub fn length<U: RealUnit>(args: Vec<Value>, unit: &U) -> (result: Result<Value, ApplyError>)
    requires
        unit_ready(unit),
    ensures
        applied_of(result) == length_of(unit, value_views(args@)),
{
    match check_arity(unit, "#[length]", 1, 1, args.len()) {
        Err(fault) => Err(fault),
        Ok(_) => match &args[0] {
            Value::Expression(expression) => {
                let count = expression.content.len();
                let clipped: i32 = if count <= 0x7fff_ffff {
                    count as i32
                } else {
                    i32::MAX
                };
                Ok(Value::from_number(crate::number::Number::Integer(clipped)))
            },
            _ => Err(invalid_type(unit, &args[0], "list")),
        },
    }
}

/// `(null? x)`.
pub fn is_null<U: RealUnit>(args: Vec<Value>, unit: &U) -> (result: Result<Value, ApplyError>)
    requires
        unit_ready(unit),
    ensures
        applied_of(result) == is_null_of(unit, value_views(args@)),
{
    match check_arity(unit, "#[null?]", 1, 1, args.len()) {
        Err(fault) => Err(fault),
        Ok(_) => {
            let empty = match &args[0] {
                Value::Expression(expression) => match expression.content {
                    Link::Nil => true,
                    Link::More(_) => false,
                },
                _ => false,
            };
            Ok(Value::from_boolean(empty))
        },
    }
}

/// `(not x)`.
pub fn not<U: RealUnit>(args: Vec<Value>, unit: &U) -> (result: Result<Value, ApplyError>)
    requires
        unit_ready(unit),
    ensures
        applied_of(result) == not_of(unit, value_views(args@)),
{
    match check_arity(unit, "#[not]", 1, 1, args.len()) {
        Err(fault) => Err(fault),
        Ok(_) => Ok(Value::from_boolean(!args[0].is_true())),
    }
}

fn kind_label(kind: Kind) -> (label: &'static str)
    ensures
        label@ == kind.label(),
{
    match kind {
        Kind::Number => "#[number?]",
        Kind::Symbol => "#[symbol?]",
        Kind::String => "#[string?]",
        Kind::Boolean => "#[boolean?]",
        Kind::Procedure => "#[procedure?]",
        Kind::Vector => "#[vector?]",
        Kind::Integer => "#[integer?]",
        Kind::Real => "#[real?]",
        Kind::Complex => "#[complex?]",
    }
}

/// `(number? x)` and the like.
pub fn is_kind<U: RealUnit>(kind: Kind, args: Vec<Value>, unit: &U) -> (result: Result<
    Value,
    ApplyError,
>)
    requires
        unit_ready(unit),
    ensures
        applied_of(result) == kind_of(unit, kind, value_views(args@)),
{
    match check_arity(unit, kind_label(kind), 1, 1, args.len()) {
        Err(fault) => Err(fault),
        Ok(_) => {
            let value = &args[0];
            let yes = match kind {
                Kind::Number => value.as_number().is_some(),
                Kind::Symbol => value.as_symbol().is_some(),
                Kind::String => value.as_string().is_some(),
                Kind::Boolean => value.as_boolean().is_some(),
                Kind::Procedure => value.as_procedure().is_some(),
                Kind::Vector => value.as_vector().is_some(),
                Kind::Integer => match value.as_number() {
                    Some(crate::number::Number::Integer(_)) => true,
                    _ => false,
                },
                Kind::Real => match value.as_number() {
                    Some(crate::number::Number::Complex(_, _)) => false,
                    Some(_) => true,
                    None => false,
                },
                Kind::Complex => value.as_number().is_some(),
            };
            Ok(Value::from_boolean(yes))
        },
    }
}

} // verus!
