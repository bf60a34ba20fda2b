//! The order of the numeric tower.
use std::cmp::Ordering;
use vstd::prelude::*;
use vstd::std_specs::cmp::{PartialEqSpecImpl, PartialOrdSpecImpl};
use crate::number::{Comparison, Number};
use crate::reals::Real;

verus! {

/// The mathematical content of an order that a comparison returned.
pub open spec fn ordering_model(order: Option<Ordering>) -> Option<Comparison> {
    match order {
        Some(Ordering::Less) => Some(Comparison::Less),
        Some(Ordering::Equal) => Some(Comparison::Equal),
        Some(Ordering::Greater) => Some(Comparison::Greater),
        None => None,
    }
}

fn order_reals(a: &Real, b: &Real) -> (order: Option<Ordering>)
    ensures
        ordering_model(order) == crate::number::real_order(*a, *b),
{
    if a.is_nan() || b.is_nan() {
        None
    } else if a.is_less(b) {
        Some(Ordering::Less)
    } else if b.is_less(a) {
        Some(Ordering::Greater)
    } else {
        Some(Ordering::Equal)
    }
}

fn order_integers(a: i32, b: i32) -> (order: Option<Ordering>)
    ensures
        ordering_model(order) == crate::number::integer_order(a, b),
{
    if a < b {
        Some(Ordering::Less)
    } else if a > b {
        Some(Ordering::Greater)
    } else {
        Some(Ordering::Equal)
    }
}

/// The order that stands for a comparison.
pub open spec fn ordering_of(comparison: Option<Comparison>) -> Option<Ordering> {
    match comparison {
        Some(Comparison::Less) => Some(Ordering::Less),
        Some(Comparison::Equal) => Some(Ordering::Equal),
        Some(Comparison::Greater) => Some(Ordering::Greater),
        None => None,
    }
}

impl PartialEq for Number {
    /// Whether the two numbers are equal once the narrower is promoted.
    fn eq(&self, other: &Number) -> (yes: bool) {
        match (*self, *other) {
            (Number::Integer(a), Number::Integer(b)) => a == b,
            (Number::Complex(ar, ai), Number::Complex(br, bi)) => ar.is_same(&br) && ai.is_same(
                &bi,
            ),
            (Number::Complex(ar, ai), _) => ar.is_same(&other.real_part()) && ai.is_zero(),
            (_, Number::Complex(br, bi)) => self.real_part().is_same(&br) && bi.is_zero(),
            _ => self.real_part().is_same(&other.real_part()),
        }
    }
}

impl PartialEqSpecImpl for Number {
    open spec fn obeys_eq_spec() -> bool {
        true
    }

    open spec fn eq_spec(&self, other: &Number) -> bool {
        self.equal(*other)
    }
}

impl PartialOrd for Number {
    /// How `self` stands to `other`, where the two are ordered.
    fn partial_cmp(&self, other: &Number) -> (order: Option<Ordering>) {
        let order = self.ordered(other);
        proof {
            match self.order(*other) {
                Some(Comparison::Less) => {},
                Some(Comparison::Equal) => {},
                Some(Comparison::Greater) => {},
                None => {},
            }
        }
        order
    }
}

impl PartialOrdSpecImpl for Number {
    open spec fn obeys_partial_cmp_spec() -> bool {
        true
    }

    open spec fn partial_cmp_spec(&self, other: &Number) -> Option<Ordering> {
        ordering_of(self.order(*other))
    }
}

impl Number {
    /// How `self` stands to `other`, where the two are ordered.
    pub fn ordered(&self, other: &Number) -> (order: Option<Ordering>)
        ensures
            ordering_model(order) == self.order(*other),
            order == ordering_of(self.order(*other)),
    {
        match (*self, *other) {
            (Number::Integer(a), Number::Integer(b)) => order_integers(a, b),
            (Number::Complex(ar, ai), Number::Complex(br, bi)) => {
                if ar.is_same(&br) && ai.is_same(&bi) {
                    Some(Ordering::Equal)
                } else if ai.is_zero() && bi.is_zero() {
                    order_reals(&ar, &br)
                } else {
                    None
                }
            },
            (Number::Complex(ar, ai), _) => {
                if ai.is_zero() {
                    order_reals(&ar, &other.real_part())
                } else {
                    None
                }
            },
            (_, Number::Complex(br, bi)) => {
                if bi.is_zero() {
                    order_reals(&self.real_part(), &br)
                } else {
                    None
                }
            },
            _ => order_reals(&self.real_part(), &other.real_part()),
        }
    }

    /// The order of `self` and `other`, in the library's own terms.
    pub fn compare(&self, other: &Number) -> (order: Option<Comparison>)
        ensures
            order == self.order(*other),
    {
        match self.ordered(other) {
            Some(Ordering::Less) => Some(Comparison::Less),
            Some(Ordering::Equal) => Some(Comparison::Equal),
            Some(Ordering::Greater) => Some(Comparison::Greater),
            None => None,
        }
    }
}

} // verus!
