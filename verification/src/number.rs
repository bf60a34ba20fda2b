//! The numeric tower: exact integers, inexact reals and complex numbers.
use vstd::prelude::*;
use vstd::std_specs::convert::FromSpecImpl;
use crate::error::{InvalidArgument, InvalidArgumentView};
use crate::reals::{
    arithmetic, integer_part, print, real_arith, real_of_integer, real_print,
    unit_ready, Real, RealOp, RealUnit,
};
use crate::text::{integer_text, signed_text};

verus! {

/// A number of the tower. Integers are exact and computed here; the parts
/// of the other two are inexact and computed by a [`RealUnit`]. `==` and
/// `<` hold numbers against each other by their values, the narrower
/// promoted.
#[derive(Debug, Clone, Copy)]
pub enum Number {
    Integer(i32),
    Real(Real),
    Complex(Real, Real),
}

/// How one number stands to another.
#[derive(Debug, Clone, Copy, PartialEq, Eq, Structural)]
pub enum Comparison {
    Less,
    Equal,
    Greater,
}

/// The quotient of two integers, rounded toward zero.
pub open spec fn truncated(a: int, b: int) -> int
    recommends
        b != 0,
{
    if a >= 0 && b > 0 {
        a / b
    } else if a >= 0 {
        -(a / (-b))
    } else if b > 0 {
        -((-a) / b)
    } else {
        (-a) / (-b)
    }
}

/// The machine integer nearest to `x`: `x` itself where it is one, else
/// the least or the greatest. Integer arithmetic saturates: each result
/// is the exact one, held to the machine's range in this way.
pub open spec fn clamped(x: int) -> i32 {
    if x < i32::MIN {
        i32::MIN
    } else if x > i32::MAX {
        i32::MAX
    } else {
        x as i32
    }
}

/// The quotient of two machine integers, rounded toward zero; the one
/// quotient that does not fit is held to the greatest integer.
pub open spec fn integer_quotient(a: i32, b: i32) -> i32
    recommends
        b != 0,
{
    clamped(truncated(a as int, b as int))
}

/// The negation of a machine integer; that of the least integer is held
/// to the greatest.
pub open spec fn integer_negation(a: i32) -> i32 {
    clamped(-a)
}

/// The machine integer nearest to `x`.
pub fn clamp(x: i64) -> (held: i32)
    ensures
        held == clamped(x as int),
{
    if x < -0x8000_0000 {
        i32::MIN
    } else if x > 0x7fff_ffff {
        i32::MAX
    } else {
        x as i32
    }
}

/// How two reals stand to each other; nothing when either is not a number.
pub open spec fn real_order(a: Real, b: Real) -> Option<Comparison> {
    if a.nan() || b.nan() {
        None
    } else if a.key() < b.key() {
        Some(Comparison::Less)
    } else if a.key() > b.key() {
        Some(Comparison::Greater)
    } else {
        Some(Comparison::Equal)
    }
}

/// How two integers stand to each other.
pub open spec fn integer_order(a: i32, b: i32) -> Option<Comparison> {
    if a < b {
        Some(Comparison::Less)
    } else if a > b {
        Some(Comparison::Greater)
    } else {
        Some(Comparison::Equal)
    }
}

impl Number {
    /// Whether the number is complex.
    pub open spec fn complex(self) -> bool {
        self is Complex
    }

    /// Whether the number is an exact integer.
    pub open spec fn exact(self) -> bool {
        self is Integer
    }

    /// The real part, an integer being taken to the real equal to it.
    pub open spec fn re(self) -> Real {
        match self {
            Number::Integer(i) => real_of_integer(i),
            Number::Real(r) => r,
            Number::Complex(r, _) => r,
        }
    }

    /// Whether the number is zero: the integer 0, a real zero of either
    /// sign, or a complex number whose two parts are zeros.
    pub open spec fn zero(self) -> bool {
        match self {
            Number::Integer(i) => i == 0,
            Number::Real(r) => r.zero(),
            Number::Complex(r, i) => r.zero() && i.zero(),
        }
    }

    /// `self + rhs`. Two integers give an integer, saturating; with a
    /// real and nothing complex the result is real; with anything complex
    /// it is complex, the other operand counting as a real.
    pub open spec fn sum<U: RealUnit>(self, rhs: Number, unit: &U) -> Number {
        let plus = |a: Real, b: Real| real_arith(unit, RealOp::Add, a, b);
        match (self, rhs) {
            (Number::Integer(a), Number::Integer(b)) => Number::Integer(clamped(a + b)),
            (Number::Complex(ar, ai), Number::Complex(br, bi)) => Number::Complex(
                plus(ar, br),
                plus(ai, bi),
            ),
            (Number::Complex(ar, ai), _) => Number::Complex(plus(ar, rhs.re()), ai),
            (_, Number::Complex(br, bi)) => Number::Complex(plus(self.re(), br), bi),
            _ => Number::Real(plus(self.re(), rhs.re())),
        }
    }

    /// `self - rhs`, with the promotion of [`Number::sum`].
    pub open spec fn difference<U: RealUnit>(self, rhs: Number, unit: &U) -> Number {
        let minus = |a: Real, b: Real| real_arith(unit, RealOp::Sub, a, b);
        match (self, rhs) {
            (Number::Integer(a), Number::Integer(b)) => Number::Integer(clamped(a - b)),
            (Number::Complex(ar, ai), Number::Complex(br, bi)) => Number::Complex(
                minus(ar, br),
                minus(ai, bi),
            ),
            (Number::Complex(ar, ai), _) => Number::Complex(minus(ar, rhs.re()), ai),
            (_, Number::Complex(br, bi)) => Number::Complex(
                minus(self.re(), br),
                bi.negated(),
            ),
            _ => Number::Real(minus(self.re(), rhs.re())),
        }
    }

    /// `self * rhs`, with the promotion of [`Number::sum`].
    pub open spec fn product<U: RealUnit>(self, rhs: Number, unit: &U) -> Number {
        let times = |a: Real, b: Real| real_arith(unit, RealOp::Mul, a, b);
        match (self, rhs) {
            (Number::Integer(a), Number::Integer(b)) => Number::Integer(clamped(a * b)),
            (Number::Complex(ar, ai), Number::Complex(br, bi)) => Number::Complex(
                real_arith(unit, RealOp::Sub, times(ar, br), times(ai, bi)),
                real_arith(unit, RealOp::Add, times(ar, bi), times(ai, br)),
            ),
            (Number::Complex(ar, ai), _) => Number::Complex(
                times(ar, rhs.re()),
                times(ai, rhs.re()),
            ),
            (_, Number::Complex(br, bi)) => Number::Complex(
                times(self.re(), br),
                times(self.re(), bi),
            ),
            _ => Number::Real(times(self.re(), rhs.re())),
        }
    }

    /// `self / rhs`, with the promotion of [`Number::sum`]. Two integers
    /// give the integer quotient rounded toward zero.
    pub open spec fn quotient<U: RealUnit>(self, rhs: Number, unit: &U) -> Number {
        let times = |a: Real, b: Real| real_arith(unit, RealOp::Mul, a, b);
        let over = |a: Real, b: Real| real_arith(unit, RealOp::Div, a, b);
        let norm = |r: Real, i: Real| real_arith(unit, RealOp::Add, times(r, r), times(i, i));
        match (self, rhs) {
            (Number::Integer(a), Number::Integer(b)) => Number::Integer(integer_quotient(a, b)),
            (Number::Complex(ar, ai), Number::Complex(br, bi)) => Number::Complex(
                over(real_arith(unit, RealOp::Add, times(ar, br), times(ai, bi)), norm(br, bi)),
                over(real_arith(unit, RealOp::Sub, times(ai, br), times(ar, bi)), norm(br, bi)),
            ),
            (Number::Complex(ar, ai), _) => Number::Complex(
                over(ar, rhs.re()),
                over(ai, rhs.re()),
            ),
            (_, Number::Complex(br, bi)) => Number::Complex(
                over(times(self.re(), br), norm(br, bi)),
                over(times(self.re().negated(), bi), norm(br, bi)),
            ),
            _ => Number::Real(over(self.re(), rhs.re())),
        }
    }

    /// `-self`: an integer saturates, an inexact part has its sign flipped.
    pub open spec fn negation(self) -> Number {
        match self {
            Number::Integer(a) => Number::Integer(integer_negation(a)),
            Number::Real(r) => Number::Real(r.negated()),
            Number::Complex(r, i) => Number::Complex(r.negated(), i.negated()),
        }
    }

    /// Whether the two numbers are equal once the narrower is promoted: a
    /// number that is not complex equals a complex one only where the
    /// imaginary part is zero.
    pub open spec fn equal(self, other: Number) -> bool {
        match (self, other) {
            (Number::Integer(a), Number::Integer(b)) => a == b,
            (Number::Complex(ar, ai), Number::Complex(br, bi)) => ar.same(br) && ai.same(bi),
            (Number::Complex(ar, ai), _) => ar.same(other.re()) && ai.zero(),
            (_, Number::Complex(br, bi)) => self.re().same(br) && bi.zero(),
            _ => self.re().same(other.re()),
        }
    }

    /// How `self` stands to `other`. Complex numbers are ordered by their
    /// real parts where both imaginary parts are zero; two equal complex
    /// numbers are equal; otherwise there is no order.
    pub open spec fn order(self, other: Number) -> Option<Comparison> {
        match (self, other) {
            (Number::Integer(a), Number::Integer(b)) => integer_order(a, b),
            (Number::Complex(ar, ai), Number::Complex(br, bi)) => if ar.same(br) && ai.same(bi) {
                Some(Comparison::Equal)
            } else if ai.zero() && bi.zero() {
                real_order(ar, br)
            } else {
                None
            },
            (Number::Complex(ar, ai), _) => if ai.zero() {
                real_order(ar, other.re())
            } else {
                None
            },
            (_, Number::Complex(br, bi)) => if bi.zero() {
                real_order(self.re(), br)
            } else {
                None
            },
            _ => real_order(self.re(), other.re()),
        }
    }

    /// The quotient of an integer by the integer `divisor`, rounded toward
    /// zero; 0 for what is no integer.
    pub fn quotient_by(&self, divisor: i32) -> (quotient: i32)
        requires
            divisor != 0,
        ensures
            quotient == match *self {
                Number::Integer(a) => integer_quotient(a, divisor),
                _ => 0i32,
            },
    {
        match self {
            Number::Integer(a) => divide(*a, divisor),
            _ => 0,
        }
    }

    /// Whether the two numbers are of one kind and alike in every bit.
    pub fn identical(&self, other: &Number) -> (yes: bool)
        ensures
            yes == (*self == *other),
    {
        match (*self, *other) {
            (Number::Integer(a), Number::Integer(b)) => a == b,
            (Number::Real(a), Number::Real(b)) => a.bits == b.bits,
            (Number::Complex(ar, ai), Number::Complex(br, bi)) => ar.bits == br.bits && ai.bits
                == bi.bits,
            _ => false,
        }
    }

    /// Whether the number is zero.
    pub fn is_zero(&self) -> (yes: bool)
        ensures
            yes == self.zero(),
    {
        match self {
            Number::Integer(i) => *i == 0,
            Number::Real(r) => r.is_zero(),
            Number::Complex(r, i) => r.is_zero() && i.is_zero(),
        }
    }

    /// The real part, an integer being taken to the real equal to it.
    pub fn real_part(&self) -> (part: Real)
        ensures
            part == self.re(),
    {
        match self {
            Number::Integer(i) => Real::of_integer(*i),
            Number::Real(r) => *r,
            Number::Complex(r, _) => *r,
        }
    }

    /// `self + rhs`.
    pub fn add<U: RealUnit>(self, rhs: Number, unit: &U) -> (sum: Number)
        requires
            unit_ready(unit),
        ensures
            sum == self.sum(rhs, unit),
    {
        match (self, rhs) {
            (Number::Integer(a), Number::Integer(b)) => Number::Integer(clamp(a as i64 + b as i64)),
            (Number::Complex(ar, ai), Number::Complex(br, bi)) => Number::Complex(
                arithmetic(unit, RealOp::Add, ar, br),
                arithmetic(unit, RealOp::Add, ai, bi),
            ),
            (Number::Complex(ar, ai), _) => Number::Complex(
                arithmetic(unit, RealOp::Add, ar, rhs.real_part()),
                ai,
            ),
            (_, Number::Complex(br, bi)) => Number::Complex(
                arithmetic(unit, RealOp::Add, self.real_part(), br),
                bi,
            ),
            _ => Number::Real(
                arithmetic(unit, RealOp::Add, self.real_part(), rhs.real_part()),
            ),
        }
    }

    /// `self - rhs`.
    pub fn sub<U: RealUnit>(self, rhs: Number, unit: &U) -> (difference: Number)
        requires
            unit_ready(unit),
        ensures
            difference == self.difference(rhs, unit),
    {
        match (self, rhs) {
            (Number::Integer(a), Number::Integer(b)) => Number::Integer(clamp(a as i64 - b as i64)),
            (Number::Complex(ar, ai), Number::Complex(br, bi)) => Number::Complex(
                arithmetic(unit, RealOp::Sub, ar, br),
                arithmetic(unit, RealOp::Sub, ai, bi),
            ),
            (Number::Complex(ar, ai), _) => Number::Complex(
                arithmetic(unit, RealOp::Sub, ar, rhs.real_part()),
                ai,
            ),
            (_, Number::Complex(br, bi)) => Number::Complex(
                arithmetic(unit, RealOp::Sub, self.real_part(), br),
                bi.negate(),
            ),
            _ => Number::Real(
                arithmetic(unit, RealOp::Sub, self.real_part(), rhs.real_part()),
            ),
        }
    }

    /// `self * rhs`.
    pub fn mul<U: RealUnit>(self, rhs: Number, unit: &U) -> (product: Number)
        requires
            unit_ready(unit),
        ensures
            product == self.product(rhs, unit),
    {
        match (self, rhs) {
            (Number::Integer(a), Number::Integer(b)) => Number::Integer(times(a, b)),
            (Number::Complex(ar, ai), Number::Complex(br, bi)) => {
                let rr = arithmetic(unit, RealOp::Mul, ar, br);
                let ii = arithmetic(unit, RealOp::Mul, ai, bi);
                let ri = arithmetic(unit, RealOp::Mul, ar, bi);
                let ir = arithmetic(unit, RealOp::Mul, ai, br);
                Number::Complex(
                    arithmetic(unit, RealOp::Sub, rr, ii),
                    arithmetic(unit, RealOp::Add, ri, ir),
                )
            },
            (Number::Complex(ar, ai), _) => {
                let b = rhs.real_part();
                Number::Complex(
                    arithmetic(unit, RealOp::Mul, ar, b),
                    arithmetic(unit, RealOp::Mul, ai, b),
                )
            },
            (_, Number::Complex(br, bi)) => {
                let a = self.real_part();
                Number::Complex(
                    arithmetic(unit, RealOp::Mul, a, br),
                    arithmetic(unit, RealOp::Mul, a, bi),
                )
            },
            _ => Number::Real(
                arithmetic(unit, RealOp::Mul, self.real_part(), rhs.real_part()),
            ),
        }
    }

    /// `self / rhs`. The integer 0 is no divisor of an integer; zero
    /// divisors of any kind are turned away before, by the procedure `/`.
    pub fn div<U: RealUnit>(self, rhs: Number, unit: &U) -> (quotient: Number)
        requires
            unit_ready(unit),
            !(self is Integer && rhs == Number::Integer(0)),
        ensures
            quotient == self.quotient(rhs, unit),
    {
        match (self, rhs) {
            (Number::Integer(a), Number::Integer(b)) => Number::Integer(divide(a, b)),
            (Number::Complex(ar, ai), Number::Complex(br, bi)) => {
                let norm = squared_norm(unit, br, bi);
                let rr = arithmetic(unit, RealOp::Mul, ar, br);
                let ii = arithmetic(unit, RealOp::Mul, ai, bi);
                let ir = arithmetic(unit, RealOp::Mul, ai, br);
                let ri = arithmetic(unit, RealOp::Mul, ar, bi);
                Number::Complex(
                    arithmetic(unit, RealOp::Div, arithmetic(unit, RealOp::Add, rr, ii), norm),
                    arithmetic(unit, RealOp::Div, arithmetic(unit, RealOp::Sub, ir, ri), norm),
                )
            },
            (Number::Complex(ar, ai), _) => {
                let b = rhs.real_part();
                Number::Complex(
                    arithmetic(unit, RealOp::Div, ar, b),
                    arithmetic(unit, RealOp::Div, ai, b),
                )
            },
            (_, Number::Complex(br, bi)) => {
                let a = self.real_part();
                let norm = squared_norm(unit, br, bi);
                Number::Complex(
                    arithmetic(unit, RealOp::Div, arithmetic(unit, RealOp::Mul, a, br), norm),
                    arithmetic(
                        unit,
                        RealOp::Div,
                        arithmetic(unit, RealOp::Mul, a.negate(), bi),
                        norm,
                    ),
                )
            },
            _ => Number::Real(
                arithmetic(unit, RealOp::Div, self.real_part(), rhs.real_part()),
            ),
        }
    }

    /// `-self`.
    pub fn neg(self) -> (negation: Number)
        ensures
            negation == self.negation(),
    {
        match self {
            Number::Integer(a) => Number::Integer(clamp(-(a as i64))),
            Number::Real(r) => Number::Real(r.negate()),
            Number::Complex(r, i) => Number::Complex(r.negate(), i.negate()),
        }
    }
}

fn squared_norm<U: RealUnit>(unit: &U, r: Real, i: Real) -> (norm: Real)
    requires
        unit_ready(unit),
    ensures
        norm == real_arith(
            unit,
            RealOp::Add,
            real_arith(unit, RealOp::Mul, r, r),
            real_arith(unit, RealOp::Mul, i, i),
        ),
{
    let rr = arithmetic(unit, RealOp::Mul, r, r);
    let ii = arithmetic(unit, RealOp::Mul, i, i);
    arithmetic(unit, RealOp::Add, rr, ii)
}

/// The product of two machine integers, saturating.
pub fn times(a: i32, b: i32) -> (product: i32)
    ensures
        product == clamped(a * b),
{
    assert(-0x4000_0000_0000_0000 <= a * b <= 0x4000_0000_0000_0000) by (nonlinear_arith)
        requires
            -0x8000_0000 <= a <= 0x7fff_ffff,
            -0x8000_0000 <= b <= 0x7fff_ffff,
    ;
    clamp(a as i64 * b as i64)
}

fn divide(a: i32, b: i32) -> (quotient: i32)
    requires
        b != 0,
    ensures
        quotient == integer_quotient(a, b),
{
    if a == i32::MIN && b == -1 {
        i32::MAX
    } else {
        let wide_a: i64 = a as i64;
        let wide_b: i64 = b as i64;
        let magnitude_a: u64 = if wide_a < 0 {
            (-wide_a) as u64
        } else {
            wide_a as u64
        };
        let magnitude_b: u64 = if wide_b < 0 {
            (-wide_b) as u64
        } else {
            wide_b as u64
        };
        let magnitude: u64 = magnitude_a / magnitude_b;
        assert(magnitude <= magnitude_a) by (nonlinear_arith)
            requires
                magnitude == magnitude_a / magnitude_b,
                magnitude_b > 0,
        ;
        if (wide_a < 0) == (wide_b < 0) {
            assert(magnitude < 0x8000_0000) by (nonlinear_arith)
                requires
                    magnitude == magnitude_a / magnitude_b,
                    magnitude_b > 0,
                    magnitude_a <= 0x8000_0000,
                    magnitude_a == 0x8000_0000 ==> magnitude_b > 1,
            ;
            magnitude as i32
        } else {
            (-(magnitude as i64)) as i32
        }
    }
}

impl Number {
    /// The text of the number. An integer is written in decimal and a real
    /// by the unit. A complex number is written `a+bi` or `a-bi`; where the
    /// imaginary part is zero only the real part is written, where the real
    /// part is zero only the imaginary part, and an imaginary part of one is
    /// written by its sign alone.
    pub open spec fn text<U: RealUnit>(self, unit: &U) -> Seq<char> {
        match self {
            Number::Integer(i) => integer_text(i as int),
            Number::Real(r) => real_print(unit, r),
            Number::Complex(r, i) => if i.same(Real::spec_zero()) {
                real_print(unit, r)
            } else if r.same(Real::spec_zero()) && i.same(Real::spec_one()) {
                "+i"@
            } else if r.same(Real::spec_zero()) && i.same(Real::spec_minus_one()) {
                "-i"@
            } else if r.same(Real::spec_zero()) {
                real_print(unit, i) + "i"@
            } else if i.same(Real::spec_one()) {
                real_print(unit, r) + "+i"@
            } else if i.same(Real::spec_minus_one()) {
                real_print(unit, r) + "-i"@
            } else if Real::spec_zero().less(i) {
                real_print(unit, r) + "+"@ + real_print(unit, i) + "i"@
            } else {
                real_print(unit, r) + real_print(unit, i) + "i"@
            },
        }
    }

    /// Writes the number.
    pub fn to_string<U: RealUnit>(&self, unit: &U) -> (text: String)
        requires
            unit_ready(unit),
        ensures
            text@ == self.text(unit),
    {
        let zero = Real::zero_value();
        let one = Real::one();
        let minus_one = Real::minus_one();
        match self {
            Number::Integer(i) => signed_text(*i),
            Number::Real(r) => print(unit, *r),
            Number::Complex(r, i) => {
                if i.is_same(&zero) {
                    print(unit, *r)
                } else if r.is_same(&zero) && i.is_same(&one) {
                    "+i".to_owned()
                } else if r.is_same(&zero) && i.is_same(&minus_one) {
                    "-i".to_owned()
                } else if r.is_same(&zero) {
                    let mut text = print(unit, *i);
                    text.append("i");
                    text
                } else if i.is_same(&one) {
                    let mut text = print(unit, *r);
                    text.append("+i");
                    text
                } else if i.is_same(&minus_one) {
                    let mut text = print(unit, *r);
                    text.append("-i");
                    text
                } else if zero.is_less(i) {
                    let mut text = print(unit, *r);
                    text.append("+");
                    text.append(print(unit, *i).as_str());
                    text.append("i");
                    text
                } else {
                    let mut text = print(unit, *r);
                    text.append(print(unit, *i).as_str());
                    text.append("i");
                    text
                }
            },
        }
    }
}

impl From<i32> for Number {
    fn from(value: i32) -> (number: Number) {
        Number::Integer(value)
    }
}

impl FromSpecImpl<i32> for Number {
    open spec fn obeys_from_spec() -> bool {
        true
    }

    open spec fn from_spec(value: i32) -> Number {
        Number::Integer(value)
    }
}

impl From<Real> for Number {
    fn from(value: Real) -> (number: Number) {
        Number::Real(value)
    }
}

impl FromSpecImpl<Real> for Number {
    open spec fn obeys_from_spec() -> bool {
        true
    }

    open spec fn from_spec(value: Real) -> Number {
        Number::Real(value)
    }
}

impl From<(Real, Real)> for Number {
    fn from(value: (Real, Real)) -> (number: Number) {
        Number::Complex(value.0, value.1)
    }
}

impl FromSpecImpl<(Real, Real)> for Number {
    open spec fn obeys_from_spec() -> bool {
        true
    }

    open spec fn from_spec(value: (Real, Real)) -> Number {
        Number::Complex(value.0, value.1)
    }
}

/// The mathematical content of a conversion that may fail.
pub open spec fn converted<T>(result: Result<T, InvalidArgument>) -> Result<T, InvalidArgumentView> {
    match result {
        Ok(value) => Ok(value),
        Err(fault) => Err(fault@),
    }
}

impl Number {
    /// The integer that the number is or is cut to; a complex number is
    /// none.
    pub open spec fn as_integer<U: RealUnit>(self, unit: &U) -> Result<i32, InvalidArgumentView> {
        match self {
            Number::Integer(value) => Ok(value),
            Number::Real(value) => Ok(integer_part(value) as i32),
            Number::Complex(_, _) => Err(
                InvalidArgumentView::InvalidType(self.text(unit), "integer"@),
            ),
        }
    }

    /// The real that the number is or is nearest to; a complex number is
    /// none.
    pub open spec fn as_real<U: RealUnit>(self, unit: &U) -> Result<Real, InvalidArgumentView> {
        match self {
            Number::Integer(value) => Ok(real_of_integer(value)),
            Number::Real(value) => Ok(value),
            Number::Complex(_, _) => Err(InvalidArgumentView::InvalidType(self.text(unit), "real"@)),
        }
    }

    /// The number as an integer.
    pub fn try_into_integer<U: RealUnit>(&self, unit: &U) -> (result: Result<i32, InvalidArgument>)
        requires
            unit_ready(unit),
        ensures
            converted(result) == self.as_integer(unit),
    {
        match self {
            Number::Integer(value) => Ok(*value),
            Number::Real(value) => Ok(value.to_integer()),
            Number::Complex(_, _) => Err(
                InvalidArgument::InvalidType(self.to_string(unit), "integer".to_owned()),
            ),
        }
    }

    /// The number as a real.
    pub fn try_into_real<U: RealUnit>(&self, unit: &U) -> (result: Result<Real, InvalidArgument>)
        requires
            unit_ready(unit),
        ensures
            converted(result) == self.as_real(unit),
    {
        match self {
            Number::Integer(value) => Ok(Real::of_integer(*value)),
            Number::Real(value) => Ok(*value),
            Number::Complex(_, _) => Err(
                InvalidArgument::InvalidType(self.to_string(unit), "real".to_owned()),
            ),
        }
    }
}

} // verus!
