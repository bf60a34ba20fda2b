//! Lists, strings, vectors and the equality of values.
use vstd::prelude::*;
use crate::builtin::math::{
    applied_of, arity, boolean_val, check_arity, integer_of, invalid_type, number_val, wrong_type,
    Applied,
};
use crate::builtin::pair::{data_of, slots_of};
use crate::data_model::{ending, items, link_views, list_of, Datum, Link};
use crate::error::{ApplyError, ApplyErrorView};
use crate::evaluator::after;
use crate::number::Number;
use crate::parser::build_list;
use crate::reals::{unit_ready, RealUnit};
use crate::text::{chars_of, text_of};
use crate::value::{value_views, Val, Value};

verus! {

/// A count in machine integers: the greatest integer where the count is
/// beyond it.
pub open spec fn clipped(count: nat) -> i32 {
    if count <= i32::MAX {
        count as i32
    } else {
        i32::MAX
    }
}

/// The value of a count.
pub open spec fn count_val(count: nat) -> Val {
    number_val(Number::Integer(clipped(count)))
}

/// The place that an operand names among `bound` places: an integer from
/// 0 up to `bound`, the bound itself counted in where `closed` says so.
pub open spec fn place(v: Val, bound: nat, closed: bool) -> Option<nat> {
    match integer_of(v) {
        Some(i) => if 0 <= i && (i < bound || (closed && i == bound)) {
            Some(i as nat)
        } else {
            None
        },
        None => None,
    }
}

/// The fault of an operand that names no place.
pub open spec fn no_place<U: RealUnit>(unit: &U, v: Val) -> ApplyErrorView {
    wrong_type(unit, v, "index"@)
}

/// The expression that an operand is, where it is a list that ends in the
/// empty list.
pub open spec fn list_operand(v: Val) -> Option<Datum> {
    match v {
        Val::Datum(d) => if ending(d) == Datum::Nil {
            Some(d)
        } else {
            None
        },
        _ => None,
    }
}

/// The lists from `i` on put one after the other; the last operand, which
/// may be any expression, ends the result.
pub open spec fn appended<U: RealUnit>(unit: &U, args: Seq<Val>, i: int) -> Applied
    decreases args.len() - i,
{
    if i < 0 || i >= args.len() {
        Ok(Val::Datum(Datum::Nil))
    } else if i == args.len() - 1 {
        match args[i] {
            Val::Datum(d) => Ok(Val::Datum(d)),
            other => Err(wrong_type(unit, other, "expression"@)),
        }
    } else {
        match list_operand(args[i]) {
            None => Err(wrong_type(unit, args[i], "list"@)),
            Some(d) => match appended(unit, args, i + 1) {
                Ok(Val::Datum(rest)) => Ok(Val::Datum(list_of(items(d), rest))),
                Ok(other) => Ok(other),
                Err(fault) => Err(fault),
            },
        }
    }
}

/// `(append l ...)`.
pub open spec fn append_of<U: RealUnit>(unit: &U, args: Seq<Val>) -> Applied {
    appended(unit, args, 0)
}

/// `(reverse l)`: the elements of a list, the last first.
pub open spec fn reverse_of<U: RealUnit>(unit: &U, args: Seq<Val>) -> Applied {
    match arity(unit, "#[reverse]"@, 1, 1, args.len()) {
        Some(fault) => Err(fault),
        None => match list_operand(args[0]) {
            None => Err(wrong_type(unit, args[0], "list"@)),
            Some(d) => Ok(Val::Datum(list_of(items(d).reverse(), Datum::Nil))),
        },
    }
}

/// `(list-ref l k)`: the element of a list at place `k`.
pub open spec fn list_ref_of<U: RealUnit>(unit: &U, args: Seq<Val>) -> Applied {
    match arity(unit, "#[list-ref]"@, 2, 2, args.len()) {
        Some(fault) => Err(fault),
        None => match args[0] {
            Val::Datum(d) => match place(args[1], items(d).len(), false) {
                Some(k) => Ok(Val::Datum(items(d)[k as int])),
                None => Err(no_place(unit, args[1])),
            },
            other => Err(wrong_type(unit, other, "list"@)),
        },
    }
}

/// `(list-tail l k)`: a list without its first `k` elements.
pub open spec fn list_tail_of<U: RealUnit>(unit: &U, args: Seq<Val>) -> Applied {
    match arity(unit, "#[list-tail]"@, 2, 2, args.len()) {
        Some(fault) => Err(fault),
        None => match args[0] {
            Val::Datum(d) => match place(args[1], items(d).len(), true) {
                Some(k) => Ok(Val::Datum(after(d, k))),
                None => Err(no_place(unit, args[1])),
            },
            other => Err(wrong_type(unit, other, "list"@)),
        },
    }
}

/// `(eq? a b)`, `(eqv? a b)` and `(equal? a b)`: whether two values are
/// alike in every part. As no value can be changed after it is made, what
/// is alike cannot be told apart.
pub open spec fn alike_of<U: RealUnit>(unit: &U, label: Seq<char>, args: Seq<Val>) -> Applied {
    match arity(unit, label, 2, 2, args.len()) {
        Some(fault) => Err(fault),
        None => Ok(boolean_val(args[0] == args[1])),
    }
}

/// The text that an operand is, if it is a string.
pub open spec fn string_of(v: Val) -> Option<Seq<char>> {
    match v {
        Val::Datum(Datum::String(text)) => Some(text),
        _ => None,
    }
}

/// The value of a text, a string.
pub open spec fn string_val(text: Seq<char>) -> Val {
    Val::Datum(Datum::String(text))
}

/// `(string-length s)`: the number of characters of a string.
pub open spec fn string_length_of<U: RealUnit>(unit: &U, args: Seq<Val>) -> Applied {
    match arity(unit, "#[string-length]"@, 1, 1, args.len()) {
        Some(fault) => Err(fault),
        None => match string_of(args[0]) {
            Some(text) => Ok(count_val(text.len())),
            None => Err(wrong_type(unit, args[0], "string"@)),
        },
    }
}

/// `(string-ref s k)`: the character of a string at place `k`, as a
/// string of that one character.
pub open spec fn string_ref_of<U: RealUnit>(unit: &U, args: Seq<Val>) -> Applied {
    match arity(unit, "#[string-ref]"@, 2, 2, args.len()) {
        Some(fault) => Err(fault),
        None => match string_of(args[0]) {
            Some(text) => match place(args[1], text.len(), false) {
                Some(k) => Ok(string_val(text.subrange(k as int, (k + 1) as int))),
                None => Err(no_place(unit, args[1])),
            },
            None => Err(wrong_type(unit, args[0], "string"@)),
        },
    }
}

/// `(substring s start end)`: the characters of a string from `start` up
/// to `end`.
pub open spec fn substring_of<U: RealUnit>(unit: &U, args: Seq<Val>) -> Applied {
    match arity(unit, "#[substring]"@, 3, 3, args.len()) {
        Some(fault) => Err(fault),
        None => match string_of(args[0]) {
            Some(text) => match place(args[1], text.len(), true) {
                Some(start) => match place(args[2], text.len(), true) {
                    Some(end) => if start <= end {
                        Ok(string_val(text.subrange(start as int, end as int)))
                    } else {
                        Err(no_place(unit, args[2]))
                    },
                    None => Err(no_place(unit, args[2])),
                },
                None => Err(no_place(unit, args[1])),
            },
            None => Err(wrong_type(unit, args[0], "string"@)),
        },
    }
}

/// The strings from `i` on put one after the other, behind `done`.
pub open spec fn concatenated<U: RealUnit>(unit: &U, args: Seq<Val>, i: int, done: Seq<char>) -> Applied
    decreases args.len() - i,
{
    if i < 0 || i >= args.len() {
        Ok(string_val(done))
    } else {
        match string_of(args[i]) {
            Some(text) => concatenated(unit, args, i + 1, done + text),
            None => Err(wrong_type(unit, args[i], "string"@)),
        }
    }
}

/// `(string-append s ...)`.
pub open spec fn string_append_of<U: RealUnit>(unit: &U, args: Seq<Val>) -> Applied {
    concatenated(unit, args, 0, Seq::empty())
}

/// `(string->symbol s)`: the symbol of that name.
pub open spec fn string_to_symbol_of<U: RealUnit>(unit: &U, args: Seq<Val>) -> Applied {
    match arity(unit, "#[string->symbol]"@, 1, 1, args.len()) {
        Some(fault) => Err(fault),
        None => match string_of(args[0]) {
            Some(text) => Ok(Val::Datum(Datum::Symbol(text))),
            None => Err(wrong_type(unit, args[0], "string"@)),
        },
    }
}

/// `(symbol->string s)`: the name of a symbol.
pub open spec fn symbol_to_string_of<U: RealUnit>(unit: &U, args: Seq<Val>) -> Applied {
    match arity(unit, "#[symbol->string]"@, 1, 1, args.len()) {
        Some(fault) => Err(fault),
        None => match args[0] {
            Val::Datum(Datum::Symbol(name)) => Ok(string_val(name)),
            other => Err(wrong_type(unit, other, "symbol"@)),
        },
    }
}

/// The elements that an operand holds, if it is a vector.
pub open spec fn vector_of(v: Val) -> Option<Seq<Datum>> {
    match v {
        Val::Datum(Datum::Vector(slots)) => Some(slots),
        _ => None,
    }
}

/// `(make-vector k fill)`: a vector of `k` elements, each `fill`, or the
/// integer 0 where no fill is given.
pub open spec fn make_vector_of<U: RealUnit>(unit: &U, args: Seq<Val>) -> Applied {
    match arity(unit, "#[make-vector]"@, 1, 2, args.len()) {
        Some(fault) => Err(fault),
        None => match integer_of(args[0]) {
            Some(k) => if k < 0 {
                Err(no_place(unit, args[0]))
            } else if args.len() == 1 {
                Ok(
                    Val::Datum(
                        Datum::Vector(
                            Seq::new(k as nat, |i: int| Datum::Number(Number::Integer(0))),
                        ),
                    ),
                )
            } else {
                match args[1] {
                    Val::Datum(fill) => Ok(
                        Val::Datum(Datum::Vector(Seq::new(k as nat, |i: int| fill))),
                    ),
                    other => Err(wrong_type(unit, other, "expression"@)),
                }
            },
            None => Err(no_place(unit, args[0])),
        },
    }
}

/// `(vector a ...)`: the vector of the operands.
pub open spec fn vector_from<U: RealUnit>(unit: &U, args: Seq<Val>) -> Applied {
    match data_of(unit, args, 0) {
        Ok(data) => Ok(Val::Datum(Datum::Vector(data))),
        Err(fault) => Err(fault),
    }
}

/// `(vector-length v)`.
pub open spec fn vector_length_of<U: RealUnit>(unit: &U, args: Seq<Val>) -> Applied {
    match arity(unit, "#[vector-length]"@, 1, 1, args.len()) {
        Some(fault) => Err(fault),
        None => match vector_of(args[0]) {
            Some(slots) => Ok(count_val(slots.len())),
            None => Err(wrong_type(unit, args[0], "vector"@)),
        },
    }
}

/// `(vector-ref v k)`: the element of a vector at place `k`.
pub open spec fn vector_ref_of<U: RealUnit>(unit: &U, args: Seq<Val>) -> Applied {
    match arity(unit, "#[vector-ref]"@, 2, 2, args.len()) {
        Some(fault) => Err(fault),
        None => match vector_of(args[0]) {
            Some(slots) => match place(args[1], slots.len(), false) {
                Some(k) => Ok(Val::Datum(slots[k as int])),
                None => Err(no_place(unit, args[1])),
            },
            None => Err(wrong_type(unit, args[0], "vector"@)),
        },
    }
}

/// `(vector->list v)`: the list of the elements of a vector.
pub open spec fn vector_to_list_of<U: RealUnit>(unit: &U, args: Seq<Val>) -> Applied {
    match arity(unit, "#[vector->list]"@, 1, 1, args.len()) {
        Some(fault) => Err(fault),
        None => match vector_of(args[0]) {
            Some(slots) => Ok(Val::Datum(list_of(slots, Datum::Nil))),
            None => Err(wrong_type(unit, args[0], "vector"@)),
        },
    }
}

/// `(list->vector l)`: the vector of the elements of a list.
pub open spec fn list_to_vector_of<U: RealUnit>(unit: &U, args: Seq<Val>) -> Applied {
    match arity(unit, "#[list->vector]"@, 1, 1, args.len()) {
        Some(fault) => Err(fault),
        None => match list_operand(args[0]) {
            Some(d) => Ok(Val::Datum(Datum::Vector(items(d)))),
            None => Err(wrong_type(unit, args[0], "list"@)),
        },
    }
}

fn count_value(count: usize) -> (value: Value)
    ensures
        value@ == count_val(count as nat),
{
    let clipped: i32 = if count <= 0x7fff_ffff {
        count as i32
    } else {
        i32::MAX
    };
    Value::from_number(Number::Integer(clipped))
}

fn place_of(value: &Value, bound: usize, closed: bool) -> (found: Option<usize>)
    ensures
        match found {
            Some(k) => place(value@, bound as nat, closed) == Some(k as nat),
            None => place(value@, bound as nat, closed) is None,
        },
{
    match value.as_number() {
        Some(Number::Integer(i)) => {
            if *i >= 0 {
                let k = *i as usize;
                if k < bound || (closed && k == bound) {
                    return Some(k);
                }
            }
            None
        },
        _ => None,
    }
}

/// The slot of an operand that is a list which ends in the empty list.
fn list_from(value: &Value) -> (found: Option<&Link>)
    ensures
        match found {
            Some(link) => list_operand(value@) == Some(link@),
            None => list_operand(value@) is None,
        },
{
    match value {
        Value::Expression(expression) => {
            let mut cursor = expression.content.duplicate();
            loop
                invariant
                    ending(cursor@) == ending(expression@),
                ensures
                    ending(cursor@) == ending(expression@),
                    !(cursor@ is Pair),
                decreases cursor,
            {
                let next = match cursor.as_pair() {
                    Some(pair) => pair.cdr(),
                    None => {
                        break ;
                    },
                };
                cursor = next;
            }
            match cursor.as_expression_content() {
                None => Some(&expression.content),
                Some(content) => {
                    assert(content@ != Datum::Nil);
                    None
                },
            }
        },
        _ => None,
    }
}

fn append_from<U: RealUnit>(args: &Vec<Value>, from: usize, unit: &U) -> (result: Result<
    Value,
    ApplyError,
>)
    requires
        unit_ready(unit),
    ensures
        applied_of(result) == appended(unit, value_views(args@), from as int),
    decreases args.len() - from,
{
    if from >= args.len() {
        Ok(Value::from_link(Link::Nil))
    } else if from == args.len() - 1 {
        match &args[from] {
            Value::Expression(expression) => Ok(Value::from_link(expression.content.duplicate())),
            _ => Err(invalid_type(unit, &args[from], "expression")),
        }
    } else {
        match list_from(&args[from]) {
            None => Err(invalid_type(unit, &args[from], "list")),
            Some(link) => match append_from(args, from + 1, unit) {
                Ok(Value::Expression(rest)) => {
                    let elements = link.iter();
                    Ok(Value::from_link(build_list(&elements, rest.content)))
                },
                Ok(other) => Ok(other),
                Err(fault) => Err(fault),
            },
        }
    }
}

/// `(append l ...)`.
pub fn append<U: RealUnit>(args: Vec<Value>, unit: &U) -> (result: Result<Value, ApplyError>)
    requires
        unit_ready(unit),
    ensures
        applied_of(result) == append_of(unit, value_views(args@)),
{
    append_from(&args, 0, unit)
}

/// `(reverse l)`.
pub fn reverse<U: RealUnit>(args: Vec<Value>, unit: &U) -> (result: Result<Value, ApplyError>)
    requires
        unit_ready(unit),
    ensures
        applied_of(result) == reverse_of(unit, value_views(args@)),
{
    match check_arity(unit, "#[reverse]", 1, 1, args.len()) {
        Err(fault) => {
            return Err(fault);
        },
        Ok(_) => {},
    }
    let link = match list_from(&args[0]) {
        Some(link) => link,
        None => {
            return Err(invalid_type(unit, &args[0], "list"));
        },
    };
    let elements = link.iter();
    let ghost views = link_views(elements@);
    let mut reversed = Link::Nil;
    let mut index: usize = 0;
    assert(views.take(0).reverse() =~= Seq::<Datum>::empty());
    while index < elements.len()
        invariant
            index <= elements.len(),
            views == link_views(elements@),
            reversed@ == list_of(views.take(index as int).reverse(), Datum::Nil),
        decreases elements.len() - index,
    {
        let ghost before = views.take(index as int).reverse();
        reversed = Link::new_pair(elements[index].duplicate(), reversed);
        index += 1;
        proof {
            let longer = views.take(index as int).reverse();
            assert(longer =~= seq![views[index - 1]] + before);
            assert(longer.drop_first() =~= before);
        }
    }
    assert(views.take(views.len() as int) =~= views);
    Ok(Value::from_link(reversed))
}

/// `(list-ref l k)`.
pub fn list_ref<U: RealUnit>(args: Vec<Value>, unit: &U) -> (result: Result<Value, ApplyError>)
    requires
        unit_ready(unit),
    ensures
        applied_of(result) == list_ref_of(unit, value_views(args@)),
{
    match check_arity(unit, "#[list-ref]", 2, 2, args.len()) {
        Err(fault) => {
            return Err(fault);
        },
        Ok(_) => {},
    }
    match &args[0] {
        Value::Expression(expression) => {
            let elements = expression.content.iter();
            assert(link_views(elements@).len() == elements@.len());
            match place_of(&args[1], elements.len(), false) {
                Some(k) => Ok(Value::from_link(elements[k].duplicate())),
                None => Err(invalid_type(unit, &args[1], "index")),
            }
        },
        _ => Err(invalid_type(unit, &args[0], "list")),
    }
}

fn drop_front(link: &Link, count: usize) -> (rest: Link)
    ensures
        rest@ == after(link@, count as nat),
{
    let mut cursor = link.duplicate();
    let mut left = count;
    while left > 0
        invariant
            after(cursor@, left as nat) == after(link@, count as nat),
        decreases left,
    {
        let next = match cursor.as_pair() {
            Some(pair) => pair.cdr(),
            None => cursor.duplicate(),
        };
        cursor = next;
        left -= 1;
    }
    cursor
}

/// `(list-tail l k)`.
pub fn list_tail<U: RealUnit>(args: Vec<Value>, unit: &U) -> (result: Result<Value, ApplyError>)
    requires
        unit_ready(unit),
    ensures
        applied_of(result) == list_tail_of(unit, value_views(args@)),
{
    match check_arity(unit, "#[list-tail]", 2, 2, args.len()) {
        Err(fault) => {
            return Err(fault);
        },
        Ok(_) => {},
    }
    match &args[0] {
        Value::Expression(expression) => {
            let count = expression.content.len();
            match place_of(&args[1], count, true) {
                Some(k) => Ok(Value::from_link(drop_front(&expression.content, k))),
                None => Err(invalid_type(unit, &args[1], "index")),
            }
        },
        _ => Err(invalid_type(unit, &args[0], "list")),
    }
}

/// `(eq? a b)`, `(eqv? a b)` or `(equal? a b)`, under the name `label`.
pub fn alike<U: RealUnit>(label: &str, args: Vec<Value>, unit: &U) -> (result: Result<
    Value,
    ApplyError,
>)
    requires
        unit_ready(unit),
    ensures
        applied_of(result) == alike_of(unit, label@, value_views(args@)),
{
    match check_arity(unit, label, 2, 2, args.len()) {
        Err(fault) => Err(fault),
        Ok(_) => Ok(Value::from_boolean(args[0].same_as(&args[1]))),
    }
}

/// `(string-length s)`.
pub fn string_length<U: RealUnit>(args: Vec<Value>, unit: &U) -> (result: Result<Value, ApplyError>)
    requires
        unit_ready(unit),
    ensures
        applied_of(result) == string_length_of(unit, value_views(args@)),
{
    match check_arity(unit, "#[string-length]", 1, 1, args.len()) {
        Err(fault) => {
            return Err(fault);
        },
        Ok(_) => {},
    }
    match args[0].as_string() {
        Some(text) => Ok(count_value(chars_of(text).len())),
        None => Err(invalid_type(unit, &args[0], "string")),
    }
}

/// `(string-ref s k)`.
pub fn string_ref<U: RealUnit>(args: Vec<Value>, unit: &U) -> (result: Result<Value, ApplyError>)
    requires
        unit_ready(unit),
    ensures
        applied_of(result) == string_ref_of(unit, value_views(args@)),
{
    match check_arity(unit, "#[string-ref]", 2, 2, args.len()) {
        Err(fault) => {
            return Err(fault);
        },
        Ok(_) => {},
    }
    match args[0].as_string() {
        Some(text) => {
            let chars = chars_of(text);
            match place_of(&args[1], chars.len(), false) {
                Some(k) => Ok(Value::from_link(Link::from_string(text_of(&chars, k, k + 1)))),
                None => Err(invalid_type(unit, &args[1], "index")),
            }
        },
        None => Err(invalid_type(unit, &args[0], "string")),
    }
}

/// `(substring s start end)`.
pub fn substring<U: RealUnit>(args: Vec<Value>, unit: &U) -> (result: Result<Value, ApplyError>)
    requires
        unit_ready(unit),
    ensures
        applied_of(result) == substring_of(unit, value_views(args@)),
{
    match check_arity(unit, "#[substring]", 3, 3, args.len()) {
        Err(fault) => {
            return Err(fault);
        },
        Ok(_) => {},
    }
    let text = match args[0].as_string() {
        Some(text) => text,
        None => {
            return Err(invalid_type(unit, &args[0], "string"));
        },
    };
    let chars = chars_of(text);
    let start = match place_of(&args[1], chars.len(), true) {
        Some(start) => start,
        None => {
            return Err(invalid_type(unit, &args[1], "index"));
        },
    };
    match place_of(&args[2], chars.len(), true) {
        Some(end) => {
            if start <= end {
                Ok(Value::from_link(Link::from_string(text_of(&chars, start, end))))
            } else {
                Err(invalid_type(unit, &args[2], "index"))
            }
        },
        None => Err(invalid_type(unit, &args[2], "index")),
    }
}

/// `(string-append s ...)`.
pub fn string_append<U: RealUnit>(args: Vec<Value>, unit: &U) -> (result: Result<Value, ApplyError>)
    requires
        unit_ready(unit),
    ensures
        applied_of(result) == string_append_of(unit, value_views(args@)),
{
    let ghost views = value_views(args@);
    let mut whole = String::new();
    let mut index: usize = 0;
    while index < args.len()
        invariant
            unit_ready(unit),
            index <= args.len(),
            views == value_views(args@),
            concatenated(unit, views, index as int, whole@) == concatenated(
                unit,
                views,
                0,
                Seq::empty(),
            ),
        decreases args.len() - index,
    {
        match args[index].as_string() {
            Some(text) => {
                whole.append(text);
            },
            None => {
                return Err(invalid_type(unit, &args[index], "string"));
            },
        }
        index += 1;
    }
    Ok(Value::from_link(Link::from_string(whole)))
}

/// `(string->symbol s)`.
pub fn string_to_symbol<U: RealUnit>(args: Vec<Value>, unit: &U) -> (result: Result<
    Value,
    ApplyError,
>)
    requires
        unit_ready(unit),
    ensures
        applied_of(result) == string_to_symbol_of(unit, value_views(args@)),
{
    match check_arity(unit, "#[string->symbol]", 1, 1, args.len()) {
        Err(fault) => {
            return Err(fault);
        },
        Ok(_) => {},
    }
    match args[0].as_string() {
        Some(text) => Ok(Value::from_link(Link::from_symbol(text.to_owned()))),
        None => Err(invalid_type(unit, &args[0], "string")),
    }
}

/// `(symbol->string s)`.
pub fn symbol_to_string<U: RealUnit>(args: Vec<Value>, unit: &U) -> (result: Result<
    Value,
    ApplyError,
>)
    requires
        unit_ready(unit),
    ensures
        applied_of(result) == symbol_to_string_of(unit, value_views(args@)),
{
    match check_arity(unit, "#[symbol->string]", 1, 1, args.len()) {
        Err(fault) => {
            return Err(fault);
        },
        Ok(_) => {},
    }
    match args[0].as_symbol() {
        Some(name) => Ok(Value::from_link(Link::from_string(name.to_owned()))),
        None => Err(invalid_type(unit, &args[0], "symbol")),
    }
}

/// `(make-vector k fill)`.
pub fn make_vector<U: RealUnit>(args: Vec<Value>, unit: &U) -> (result: Result<Value, ApplyError>)
    requires
        unit_ready(unit),
    ensures
        applied_of(result) == make_vector_of(unit, value_views(args@)),
{
    match check_arity(unit, "#[make-vector]", 1, 2, args.len()) {
        Err(fault) => {
            return Err(fault);
        },
        Ok(_) => {},
    }
    let count = match args[0].as_number() {
        Some(Number::Integer(k)) => {
            if *k < 0 {
                return Err(invalid_type(unit, &args[0], "index"));
            }
            *k as usize
        },
        _ => {
            return Err(invalid_type(unit, &args[0], "index"));
        },
    };
    let fill = if args.len() == 1 {
        Link::from_number(Number::Integer(0))
    } else {
        match &args[1] {
            Value::Expression(expression) => expression.content.duplicate(),
            _ => {
                return Err(invalid_type(unit, &args[1], "expression"));
            },
        }
    };
    let mut slots: Vec<Link> = Vec::new();
    let mut index: usize = 0;
    while index < count
        invariant
            index <= count,
            slots@.len() == index,
            forall|i: int| 0 <= i < index ==> (#[trigger] slots@[i])@ == fill@,
        decreases count - index,
    {
        slots.push(fill.duplicate());
        index += 1;
    }
    assert(link_views(slots@) =~= Seq::new(count as nat, |i: int| fill@));
    Ok(Value::from_link(Link::from_vector(slots)))
}

/// `(vector a ...)`.
pub fn vector<U: RealUnit>(args: Vec<Value>, unit: &U) -> (result: Result<Value, ApplyError>)
    requires
        unit_ready(unit),
    ensures
        applied_of(result) == vector_from(unit, value_views(args@)),
{
    match slots_of(&args, 0, unit) {
        Ok(slots) => Ok(Value::from_link(Link::from_vector(slots))),
        Err(fault) => Err(fault),
    }
}

/// `(vector-length v)`.
pub fn vector_length<U: RealUnit>(args: Vec<Value>, unit: &U) -> (result: Result<Value, ApplyError>)
    requires
        unit_ready(unit),
    ensures
        applied_of(result) == vector_length_of(unit, value_views(args@)),
{
    match check_arity(unit, "#[vector-length]", 1, 1, args.len()) {
        Err(fault) => {
            return Err(fault);
        },
        Ok(_) => {},
    }
    match args[0].as_vector() {
        Some(slots) => {
            assert(link_views(slots@).len() == slots@.len());
            Ok(count_value(slots.len()))
        },
        None => Err(invalid_type(unit, &args[0], "vector")),
    }
}

/// `(vector-ref v k)`.
pub fn vector_ref<U: RealUnit>(args: Vec<Value>, unit: &U) -> (result: Result<Value, ApplyError>)
    requires
        unit_ready(unit),
    ensures
        applied_of(result) == vector_ref_of(unit, value_views(args@)),
{
    match check_arity(unit, "#[vector-ref]", 2, 2, args.len()) {
        Err(fault) => {
            return Err(fault);
        },
        Ok(_) => {},
    }
    match args[0].as_vector() {
        Some(slots) => {
            assert(link_views(slots@).len() == slots@.len());
            match place_of(&args[1], slots.len(), false) {
                Some(k) => Ok(Value::from_link(slots[k].duplicate())),
                None => Err(invalid_type(unit, &args[1], "index")),
            }
        },
        None => Err(invalid_type(unit, &args[0], "vector")),
    }
}

/// `(vector->list v)`.
pub fn vector_to_list<U: RealUnit>(args: Vec<Value>, unit: &U) -> (result: Result<Value, ApplyError>)
    requires
        unit_ready(unit),
    ensures
        applied_of(result) == vector_to_list_of(unit, value_views(args@)),
{
    match check_arity(unit, "#[vector->list]", 1, 1, args.len()) {
        Err(fault) => {
            return Err(fault);
        },
        Ok(_) => {},
    }
    match args[0].as_vector() {
        Some(slots) => Ok(Value::from_link(build_list(slots, Link::Nil))),
        None => Err(invalid_type(unit, &args[0], "vector")),
    }
}

/// `(list->vector l)`.
pub fn list_to_vector<U: RealUnit>(args: Vec<Value>, unit: &U) -> (result: Result<Value, ApplyError>)
    requires
        unit_ready(unit),
    ensures
        applied_of(result) == list_to_vector_of(unit, value_views(args@)),
{
    match check_arity(unit, "#[list->vector]", 1, 1, args.len()) {
        Err(fault) => {
            return Err(fault);
        },
        Ok(_) => {},
    }
    match list_from(&args[0]) {
        Some(link) => Ok(Value::from_link(Link::from_vector(link.iter()))),
        None => Err(invalid_type(unit, &args[0], "list")),
    }
}

} // verus!
