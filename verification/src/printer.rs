//! How expressions are written.
use vstd::prelude::*;
use crate::data_model::{Datum, Expression, ExpressionContent, Link};
use crate::reals::{unit_ready, RealUnit};

verus! {

/// The text of an expression: a number by its own rule, a string between
/// quotes, `#t` and `#f`, a symbol by its name, a list between parentheses
/// with a dot before a tail that is not the empty list, a vector after
/// `#(`.
pub open spec fn print_datum<U: RealUnit>(unit: &U, d: Datum) -> Seq<char>
    decreases d, 0int,
{
    match d {
        Datum::Nil => "()"@,
        Datum::Number(number) => number.text(unit),
        Datum::String(text) => "\""@ + text + "\""@,
        Datum::Boolean(boolean) => if boolean {
            "#t"@
        } else {
            "#f"@
        },
        Datum::Symbol(name) => name,
        Datum::Pair(car, cdr) => "("@ + print_datum(unit, *car) + print_rest(unit, *cdr) + ")"@,
        Datum::Vector(slots) => "#("@ + print_items(unit, slots, slots.len()) + ")"@,
        Datum::Promise(_, _) => "#[promise]"@,
    }
}

/// The text of what follows the first element of a list, up to the
/// closing parenthesis.
pub open spec fn print_rest<U: RealUnit>(unit: &U, d: Datum) -> Seq<char>
    decreases d, 1int,
{
    match d {
        Datum::Nil => Seq::empty(),
        Datum::Pair(car, cdr) => " "@ + print_datum(unit, *car) + print_rest(unit, *cdr),
        other => " . "@ + print_datum(unit, other),
    }
}

/// The text of the first `count` of `slots`, a space between two.
pub open spec fn print_items<U: RealUnit>(unit: &U, slots: Seq<Datum>, count: nat) -> Seq<char>
    decreases slots, count,
{
    if count == 0 || count > slots.len() {
        Seq::empty()
    } else if count == 1 {
        print_datum(unit, slots[0])
    } else {
        print_items(unit, slots, (count - 1) as nat) + " "@ + print_datum(unit, slots[count - 1])
    }
}

impl Link {
    /// Writes what the slot holds.
    pub fn to_string<U: RealUnit>(&self, unit: &U) -> (text: String)
        requires
            unit_ready(unit),
        ensures
            text@ == print_datum(unit, self@),
        decreases self,
    {
        match self.as_expression_content() {
            None => "()".to_owned(),
            Some(ExpressionContent::Number(number)) => number.to_string(unit),
            Some(ExpressionContent::String(content)) => {
                let mut text = "\"".to_owned();
                text.append(content.as_str());
                text.append("\"");
                text
            },
            Some(ExpressionContent::Boolean(boolean)) => {
                if *boolean {
                    "#t".to_owned()
                } else {
                    "#f".to_owned()
                }
            },
            Some(ExpressionContent::Symbol(name)) => name.clone(),
            Some(ExpressionContent::PairLink(pair)) => {
                let mut text = "(".to_owned();
                text.append(pair.car.to_string(unit).as_str());
                let ghost whole = "("@ + print_datum(unit, pair.car@) + print_rest(
                    unit,
                    pair.cdr@,
                );
                let mut cursor: &Link = &pair.cdr;
                loop
                    invariant
                        unit_ready(unit),
                        text@ + print_rest(unit, cursor@) == whole,
                        decreases_to!(*self => *cursor),
                    ensures
                        text@ + print_rest(unit, cursor@) == whole,
                        decreases_to!(*self => *cursor),
                        !(cursor@ is Pair),
                    decreases cursor,
                {
                    match cursor.as_pair() {
                        Some(next) => {
                            let ghost before = text@;
                            let item = next.car.to_string(unit);
                            text.append(" ");
                            text.append(item.as_str());
                            assert(before + (" "@ + print_datum(unit, next.car@) + print_rest(
                                unit,
                                next.cdr@,
                            )) =~= text@ + print_rest(unit, next.cdr@));
                            cursor = &next.cdr;
                        },
                        None => {
                            break ;
                        },
                    }
                }
                match cursor {
                    Link::Nil => {
                        assert(text@ + Seq::<char>::empty() =~= text@);
                    },
                    Link::More(_) => {
                        let ghost before = text@;
                        let tail = cursor.to_string(unit);
                        text.append(" . ");
                        text.append(tail.as_str());
                        assert(before + (" . "@ + print_datum(unit, cursor@)) =~= text@);
                    },
                }
                text.append(")");
                text
            },
            Some(ExpressionContent::VectorLink(slots)) => {
                let mut text = "#(".to_owned();
                let ghost views = self@->Vector_0;
                assert(views.len() == slots@.len());
                let mut index: usize = 0;
                assert("#("@ + print_items(unit, views, 0) =~= "#("@);
                while index < slots.len()
                    invariant
                        unit_ready(unit),
                        index <= slots.len(),
                        views.len() == slots@.len(),
                        forall|i: int| 0 <= i < views.len() ==> views[i] == (#[trigger] slots@[i])@,
                        forall|i: int| 0 <= i < slots@.len() ==> decreases_to!(*self => slots@[i]),
                        text@ == "#("@ + print_items(unit, views, index as nat),
                    decreases slots.len() - index,
                {
                    let ghost before = text@;
                    let item = slots[index].to_string(unit);
                    if index > 0 {
                        text.append(" ");
                    }
                    text.append(item.as_str());
                    index += 1;
                    assert(text@ =~= "#("@ + print_items(unit, views, index as nat));
                }
                text.append(")");
                text
            },
            Some(ExpressionContent::Promise(_)) => "#[promise]".to_owned(),
        }
    }
}

impl Expression {
    /// Writes the expression.
    pub fn to_string<U: RealUnit>(&self, unit: &U) -> (text: String)
        requires
            unit_ready(unit),
        ensures
            text@ == print_datum(unit, self@),
    {
        self.content.to_string(unit)
    }
}

} // verus!
