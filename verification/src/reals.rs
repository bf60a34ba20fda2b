//! Inexact reals. The interpreter carries each as the bit pattern of an
//! IEEE-754 binary64 value. On the bits it compares, negates, turns
//! integers into reals and cuts reals to integers; for everything else it
//! asks a [`RealUnit`].
use vstd::prelude::*;

verus! {

/// An inexact real, held as the 64 bits of an IEEE-754 binary64 value.
#[derive(Debug, Clone, Copy, PartialEq, Eq, Structural)]
pub struct Real {
    pub bits: u64,
}

/// The operations of two operands asked of a [`RealUnit`].
#[derive(Debug, Clone, Copy, PartialEq, Eq, Structural)]
pub enum RealOp {
    Add,
    Sub,
    Mul,
    Div,
    /// The remainder of the division, with the sign of the dividend.
    Rem,
    /// The first operand raised to the power of the second.
    Pow,
}

/// The functions of one operand asked of a [`RealUnit`].
#[derive(Debug, Clone, Copy, PartialEq, Eq, Structural)]
pub enum RealFunction {
    Cos,
    Sin,
    /// Degrees to radians.
    Radians,
}

/// The bit that carries the sign.
pub const SIGN_BIT: u64 = 0x8000_0000_0000_0000;

/// The magnitude of positive infinity; every larger magnitude is not a number.
pub const INFINITY_BITS: u64 = 0x7ff0_0000_0000_0000;

/// The bits of positive one.
pub const ONE_BITS: u64 = 0x3ff0_0000_0000_0000;

/// The bits of negative one.
pub const MINUS_ONE_BITS: u64 = 0xbff0_0000_0000_0000;

/// The bits of minus ninety.
pub const MINUS_NINETY_BITS: u64 = 0xc056_8000_0000_0000;

/// The bits of three hundred and sixty.
pub const FULL_TURN_BITS: u64 = 0x4076_8000_0000_0000;

impl Real {
    /// Whether the sign bit is set.
    pub open spec fn negative(self) -> bool {
        self.bits >= SIGN_BIT
    }

    /// The bits without the sign.
    pub open spec fn magnitude(self) -> int {
        if self.bits >= SIGN_BIT {
            self.bits - SIGN_BIT
        } else {
            self.bits as int
        }
    }

    /// Whether the value is not a number.
    pub open spec fn nan(self) -> bool {
        self.magnitude() > INFINITY_BITS
    }

    /// Whether the value is zero, of either sign.
    pub open spec fn zero(self) -> bool {
        self.magnitude() == 0
    }

    /// An integer that orders the values that are numbers as the values
    /// themselves are ordered: the magnitude, negated under a set sign bit.
    /// Both zeros get the same key.
    pub open spec fn key(self) -> int {
        if self.negative() {
            -self.magnitude()
        } else {
            self.magnitude()
        }
    }

    /// IEEE equality: both are numbers and stand at the same place in the
    /// order.
    pub open spec fn same(self, other: Real) -> bool {
        !self.nan() && !other.nan() && self.key() == other.key()
    }

    /// IEEE `<`: both are numbers and `self` stands before `other`.
    pub open spec fn less(self, other: Real) -> bool {
        !self.nan() && !other.nan() && self.key() < other.key()
    }

    /// The value without its sign.
    pub open spec fn absolute(self) -> Real {
        if self.bits >= SIGN_BIT {
            Real { bits: (self.bits - SIGN_BIT) as u64 }
        } else {
            self
        }
    }

    /// The value with its sign flipped.
    pub open spec fn negated(self) -> Real {
        if self.bits >= SIGN_BIT {
            Real { bits: (self.bits - SIGN_BIT) as u64 }
        } else {
            Real { bits: (self.bits + SIGN_BIT) as u64 }
        }
    }

    /// Positive zero.
    pub open spec fn spec_zero() -> Real {
        Real { bits: 0 }
    }

    /// Positive one.
    pub open spec fn spec_one() -> Real {
        Real { bits: ONE_BITS }
    }

    /// Negative one.
    pub open spec fn spec_minus_one() -> Real {
        Real { bits: MINUS_ONE_BITS }
    }

    /// Positive zero.
    pub fn zero_value() -> (zero: Real)
        ensures
            zero == Real::spec_zero(),
    {
        Real { bits: 0 }
    }

    /// Positive one.
    pub fn one() -> (one: Real)
        ensures
            one == Real::spec_one(),
    {
        Real { bits: ONE_BITS }
    }

    /// Negative one.
    pub fn minus_one() -> (one: Real)
        ensures
            one == Real::spec_minus_one(),
    {
        Real { bits: MINUS_ONE_BITS }
    }

    fn magnitude_bits(&self) -> (magnitude: u64)
        ensures
            magnitude == self.magnitude(),
    {
        if self.bits >= SIGN_BIT {
            self.bits - SIGN_BIT
        } else {
            self.bits
        }
    }

    /// Whether the sign bit is set.
    pub fn is_negative(&self) -> (yes: bool)
        ensures
            yes == self.negative(),
    {
        self.bits >= SIGN_BIT
    }

    /// Whether the value is not a number.
    pub fn is_nan(&self) -> (yes: bool)
        ensures
            yes == self.nan(),
    {
        self.magnitude_bits() > INFINITY_BITS
    }

    /// Whether the value is zero, of either sign.
    pub fn is_zero(&self) -> (yes: bool)
        ensures
            yes == self.zero(),
    {
        self.magnitude_bits() == 0
    }

    /// IEEE equality.
    pub fn is_same(&self, other: &Real) -> (yes: bool)
        ensures
            yes == self.same(*other),
    {
        if self.is_nan() || other.is_nan() {
            false
        } else if self.is_zero() && other.is_zero() {
            true
        } else {
            self.bits == other.bits
        }
    }

    /// IEEE `<`.
    pub fn is_less(&self, other: &Real) -> (yes: bool)
        ensures
            yes == self.less(*other),
    {
        if self.is_nan() || other.is_nan() {
            false
        } else if self.is_negative() {
            if other.is_negative() {
                self.magnitude_bits() > other.magnitude_bits()
            } else {
                self.magnitude_bits() > 0 || other.magnitude_bits() > 0
            }
        } else {
            !other.is_negative() && self.magnitude_bits() < other.magnitude_bits()
        }
    }

    /// The value without its sign.
    pub fn abs(&self) -> (magnitude: Real)
        ensures
            magnitude == self.absolute(),
    {
        if self.bits >= SIGN_BIT {
            Real { bits: self.bits - SIGN_BIT }
        } else {
            *self
        }
    }

    /// The value with its sign flipped.
    pub fn negate(&self) -> (flipped: Real)
        ensures
            flipped == self.negated(),
    {
        if self.bits >= SIGN_BIT {
            Real { bits: self.bits - SIGN_BIT }
        } else {
            Real { bits: self.bits + SIGN_BIT }
        }
    }
}

/// Two to the power `k`.
pub open spec fn two_to(k: nat) -> nat
    decreases k,
{
    if k == 0 {
        1
    } else {
        2 * two_to((k - 1) as nat)
    }
}

/// The place of the highest bit of `m` that is set; 0 for 0.
pub open spec fn top_bit(m: nat) -> nat
    decreases m,
{
    if m <= 1 {
        0
    } else {
        1 + top_bit(m / 2)
    }
}

/// The magnitude of a machine integer.
pub open spec fn magnitude_of(i: i32) -> nat {
    if i < 0 {
        (-i) as nat
    } else {
        i as nat
    }
}

/// The bits of the real that is equal to the integer `i`: the sign, the
/// exponent of the highest bit of the magnitude, and the bits below it as
/// the fraction. Every machine integer is a real exactly.
pub open spec fn integer_bits(i: i32) -> nat {
    if i == 0 {
        0
    } else {
        let m = magnitude_of(i);
        let p = top_bit(m);
        ((if i < 0 {
            two_to(63)
        } else {
            0
        }) + (1023 + p) * two_to(52) + (m - two_to(p)) * two_to((52 - p) as nat)) as nat
    }
}

/// The real that is equal to the integer `i`.
pub open spec fn real_of_integer(i: i32) -> Real {
    Real { bits: integer_bits(i) as u64 }
}

/// Whether the bits `bits` stand for the integer `i`, which is not zero:
/// the sign is that of `i`, and the significand, the fraction with its
/// hidden bit, scaled by the exponent, is the magnitude of `i`.
pub open spec fn stands_for(bits: nat, i: i32) -> bool {
    let sign = bits / two_to(63);
    let exponent = (bits / two_to(52)) % two_to(11);
    let fraction = bits % two_to(52);
    &&& (sign == 1) == (i < 0)
    &&& 1023 <= exponent <= 1075
    &&& two_to(52) + fraction == magnitude_of(i) * two_to((1075 - exponent) as nat)
}

proof fn lemma_two_to_sum(a: nat, b: nat)
    ensures
        two_to(a) * two_to(b) == two_to(a + b),
    decreases a,
{
    if a == 0 {
        assert(two_to(0) == 1);
    } else {
        lemma_two_to_sum((a - 1) as nat, b);
        assert(two_to(a) == 2 * two_to((a - 1) as nat));
        assert(two_to(a + b) == 2 * two_to((a + b - 1) as nat));
        assert(2 * two_to((a - 1) as nat) * two_to(b) == 2 * (two_to((a - 1) as nat) * two_to(b)))
            by (nonlinear_arith);
    }
}

proof fn lemma_powers()
    ensures
        two_to(11) == 2048,
        two_to(22) == 0x40_0000,
        two_to(32) == 0x1_0000_0000,
        two_to(52) == 0x10_0000_0000_0000,
        two_to(62) == 0x4000_0000_0000_0000,
        two_to(63) == 0x8000_0000_0000_0000,
        two_to(64) == 0x1_0000_0000_0000_0000,
{
    assert(two_to(10) == 1024) by {
        reveal_with_fuel(two_to, 11);
    }
    assert(two_to(11) == 2048);
    assert(two_to(2) == 4) by {
        reveal_with_fuel(two_to, 3);
    }
    assert(two_to(1) == 2) by {
        reveal_with_fuel(two_to, 2);
    }
    lemma_two_to_sum(10, 10);
    assert(two_to(20) == 0x10_0000);
    lemma_two_to_sum(20, 2);
    assert(two_to(22) == 0x40_0000);
    lemma_two_to_sum(20, 11);
    assert(two_to(31) == 0x8000_0000);
    lemma_two_to_sum(31, 1);
    assert(two_to(32) == 0x1_0000_0000);
    lemma_two_to_sum(20, 20);
    assert(two_to(40) == 0x100_0000_0000);
    lemma_two_to_sum(40, 11);
    assert(two_to(51) == 0x8_0000_0000_0000);
    lemma_two_to_sum(51, 1);
    assert(two_to(52) == 0x10_0000_0000_0000);
    lemma_two_to_sum(52, 10);
    assert(two_to(62) == 0x4000_0000_0000_0000);
    lemma_two_to_sum(62, 1);
    assert(two_to(63) == 0x8000_0000_0000_0000);
    lemma_two_to_sum(63, 1);
}

proof fn lemma_two_to_grows(a: nat, b: nat)
    requires
        a <= b,
    ensures
        0 < two_to(a) <= two_to(b),
    decreases b,
{
    if a < b {
        lemma_two_to_grows(a, (b - 1) as nat);
    } else if a > 0 {
        lemma_two_to_grows((a - 1) as nat, (a - 1) as nat);
    }
}

proof fn lemma_top_bit(m: nat)
    requires
        m >= 1,
    ensures
        two_to(top_bit(m)) <= m < 2 * two_to(top_bit(m)),
    decreases m,
{
    if m > 1 {
        lemma_top_bit(m / 2);
    }
}

proof fn lemma_top_bit_bound(m: nat, k: nat)
    requires
        1 <= m < two_to(k),
    ensures
        top_bit(m) < k,
{
    lemma_top_bit(m);
    if top_bit(m) >= k {
        lemma_two_to_grows(k, top_bit(m));
    }
}

fn power_of_two(k: u32) -> (power: u64)
    requires
        k <= 62,
    ensures
        power == two_to(k as nat),
        0 < power <= 0x4000_0000_0000_0000,
{
    let mut power: u64 = 1;
    let mut done: u32 = 0;
    proof {
        lemma_two_to_grows(k as nat, 62);
        lemma_powers();
    }
    while done < k
        invariant
            done <= k <= 62,
            power == two_to(done as nat),
            two_to(k as nat) <= 0x4000_0000_0000_0000,
        decreases k - done,
    {
        proof {
            lemma_two_to_grows((done + 1) as nat, k as nat);
        }
        power = power * 2;
        done += 1;
    }
    proof {
        lemma_two_to_grows(0, k as nat);
    }
    power
}

impl Real {
    /// The real that is equal to the integer `i`.
    pub fn of_integer(i: i32) -> (r: Real)
        ensures
            r == real_of_integer(i),
    {
        if i == 0 {
            return Real { bits: 0 };
        }
        let m: u64 = if i < 0 {
            (-(i as i64)) as u64
        } else {
            i as u64
        };
        let mut p: u32 = 0;
        let mut probe: u64 = m;
        proof {
            lemma_powers();
            lemma_top_bit_bound(m as nat, 32);
        }
        while probe > 1
            invariant
                1 <= probe <= m,
                p + top_bit(probe as nat) == top_bit(m as nat),
                top_bit(m as nat) < 32,
            decreases probe,
        {
            probe = probe / 2;
            p += 1;
        }
        let high = power_of_two(p);
        let scale = power_of_two(52 - p);
        let field = power_of_two(52);
        proof {
            lemma_powers();
            lemma_top_bit(m as nat);
            lemma_two_to_sum(p as nat, (52 - p) as nat);
            assert((m - high) * scale < 0x10_0000_0000_0000) by (nonlinear_arith)
                requires
                    high * scale == 0x10_0000_0000_0000,
                    high <= m < 2 * high,
                    scale > 0,
            ;
            assert((1023 + p) * field <= 1054 * 0x10_0000_0000_0000) by (nonlinear_arith)
                requires
                    p < 32,
                    field == 0x10_0000_0000_0000,
            ;
        }
        let fraction = (m - high) * scale;
        let exponent = (1023 + p as u64) * field;
        let sign: u64 = if i < 0 {
            SIGN_BIT
        } else {
            0
        };
        Real { bits: sign + exponent + fraction }
    }
}

/// The bits of the real that is equal to an integer stand for that
/// integer.
pub proof fn integer_bits_stand_for_the_integer(i: i32)
    requires
        i != 0,
    ensures
        stands_for(integer_bits(i), i),
        integer_bits(i) < two_to(64),
{
    let m = magnitude_of(i);
    let p = top_bit(m);
    lemma_powers();
    lemma_top_bit_bound(m, 32);
    lemma_top_bit(m);
    lemma_two_to_sum(p, (52 - p) as nat);
    lemma_two_to_grows(0, (52 - p) as nat);
    let high = two_to(p);
    let scale = two_to((52 - p) as nat);
    let fraction = (m - high) * scale;
    let exponent = 1023 + p;
    assert(0 <= fraction < 0x10_0000_0000_0000 && fraction + 0x10_0000_0000_0000 == m * scale)
        by (nonlinear_arith)
        requires
            high * scale == 0x10_0000_0000_0000,
            high <= m < 2 * high,
            scale > 0,
            fraction == (m - high) * scale,
    ;
    let sign: nat = if i < 0 {
        1
    } else {
        0
    };
    let bits = integer_bits(i);
    assert(bits == sign * 0x8000_0000_0000_0000 + exponent * 0x10_0000_0000_0000 + fraction);
    assert(bits % 0x10_0000_0000_0000 == fraction && bits / 0x10_0000_0000_0000 == sign * 2048
        + exponent && bits / 0x8000_0000_0000_0000 == sign) by (nonlinear_arith)
        requires
            bits == sign * 0x8000_0000_0000_0000 + exponent * 0x10_0000_0000_0000 + fraction,
            0 <= fraction < 0x10_0000_0000_0000,
            1023 <= exponent < 1055,
            sign <= 1,
    ;
    assert((sign * 2048 + exponent) % 2048 == exponent) by (nonlinear_arith)
        requires
            1023 <= exponent < 1055,
            sign <= 1,
    ;
}

/// The integer part of a real as a machine integer: the value cut toward
/// zero; the nearest machine integer where it lies beyond them; 0 for
/// what is not a number.
pub open spec fn integer_part(x: Real) -> int {
    let exponent = x.magnitude() / (two_to(52) as int);
    let fraction = x.magnitude() % (two_to(52) as int);
    if x.nan() || exponent < 1023 {
        0
    } else if exponent >= 1054 {
        if x.negative() {
            i32::MIN as int
        } else {
            i32::MAX as int
        }
    } else {
        let whole = (two_to(52) + fraction) / (two_to((1075 - exponent) as nat) as int);
        if x.negative() {
            -whole
        } else {
            whole
        }
    }
}

impl Real {
    /// The integer part of the value.
    pub fn to_integer(&self) -> (whole: i32)
        ensures
            whole == integer_part(*self),
    {
        let magnitude = self.magnitude_bits();
        let field = power_of_two(52);
        proof {
            lemma_powers();
        }
        let exponent: u64 = magnitude / field;
        let fraction: u64 = magnitude % field;
        if magnitude > INFINITY_BITS || exponent < 1023 {
            0
        } else if exponent >= 1054 {
            if self.is_negative() {
                i32::MIN
            } else {
                i32::MAX
            }
        } else {
            let shift: u32 = (1075 - exponent) as u32;
            let scale = power_of_two(shift);
            proof {
                lemma_two_to_grows(22, shift as nat);
                assert(((field + fraction) as int) / (scale as int) < 0x8000_0000) by (nonlinear_arith)
                    requires
                        field + fraction < 0x20_0000_0000_0000,
                        scale >= 0x40_0000,
                ;
            }
            let whole: u64 = (field + fraction) / scale;
            if self.is_negative() {
                (-(whole as i64)) as i32
            } else {
                whole as i32
            }
        }
    }
}

/// The integer part of the real that is equal to an integer is that
/// integer.
pub proof fn an_integer_is_its_own_integer_part(i: i32)
    ensures
        integer_part(real_of_integer(i)) == i,
{
    lemma_powers();
    if i != 0 {
        let m = magnitude_of(i);
        let p = top_bit(m);
        lemma_top_bit_bound(m, 32);
        lemma_top_bit(m);
        lemma_two_to_sum(p, (52 - p) as nat);
        lemma_two_to_grows(0, (52 - p) as nat);
        lemma_two_to_grows(p, 31);
        let high = two_to(p);
        let scale = two_to((52 - p) as nat);
        let fraction = (m - high) * scale;
        let exponent = 1023 + p;
        assert(0 <= fraction < 0x10_0000_0000_0000 && fraction + 0x10_0000_0000_0000 == m * scale)
            by (nonlinear_arith)
            requires
                high * scale == 0x10_0000_0000_0000,
                high <= m < 2 * high,
                scale > 0,
                fraction == (m - high) * scale,
        ;
        let x = real_of_integer(i);
        let magnitude = exponent * 0x10_0000_0000_0000 + fraction;
        assert(exponent * 0x10_0000_0000_0000 <= 1054 * 0x10_0000_0000_0000) by (nonlinear_arith)
            requires
                exponent <= 1054,
        ;
        assert(x.magnitude() == magnitude);
        assert(magnitude / 0x10_0000_0000_0000 == exponent && magnitude % 0x10_0000_0000_0000
            == fraction) by (nonlinear_arith)
            requires
                magnitude == exponent * 0x10_0000_0000_0000 + fraction,
                0 <= fraction < 0x10_0000_0000_0000,
                0 <= exponent,
        ;
        if p == 31 {
            assert(m >= 0x8000_0000);
        } else {
            assert((1075 - exponent) as nat == (52 - p) as nat);
            assert((m * scale) / scale == m) by (nonlinear_arith)
                requires
                    scale > 0,
            ;
        }
    }
}

/// The arithmetic that the interpreter does not do itself: the embedder
/// supplies it. The evaluator states its results over whatever the unit
/// answers, and asks only that the unit be a function of its arguments (see
/// [`unit_ready`]).
pub trait RealUnit {
    /// `a op b`, rounded as IEEE-754 asks.
    fn arithmetic(&self, op: RealOp, a: Real, b: Real) -> Real;

    /// `function` of `x`.
    fn function(&self, function: RealFunction, x: Real) -> Real;

    /// The real that the decimal `text` writes, if it writes one.
    fn decode(&self, text: &str) -> Option<Real>;

    /// The shortest decimal that reads back as `x`.
    fn print(&self, x: Real) -> String;
}

/// The unit accepts every request and answers each with a single value,
/// the same for the same characters.
pub open spec fn unit_ready<U: RealUnit>(unit: &U) -> bool {
    &&& forall|op: RealOp, a: Real, b: Real| #[trigger] call_requires(U::arithmetic, (unit, op, a, b))
    &&& forall|op: RealOp, a: Real, b: Real, r1: Real, r2: Real|
        #[trigger] call_ensures(U::arithmetic, (unit, op, a, b), r1) && #[trigger] call_ensures(
            U::arithmetic,
            (unit, op, a, b),
            r2,
        ) ==> r1 == r2
    &&& forall|function: RealFunction, x: Real| #[trigger]
        call_requires(U::function, (unit, function, x))
    &&& forall|function: RealFunction, x: Real, r1: Real, r2: Real|
        #[trigger] call_ensures(U::function, (unit, function, x), r1) && #[trigger] call_ensures(
            U::function,
            (unit, function, x),
            r2,
        ) ==> r1 == r2
    &&& forall|text: &str| #[trigger] call_requires(U::decode, (unit, text))
    &&& forall|t1: &str, t2: &str, r1: Option<Real>, r2: Option<Real>|
        t1@ == t2@ && #[trigger] call_ensures(U::decode, (unit, t1), r1) && #[trigger] call_ensures(
            U::decode,
            (unit, t2),
            r2,
        ) ==> r1 == r2
    &&& forall|x: Real| #[trigger] call_requires(U::print, (unit, x))
    &&& forall|x: Real, r1: String, r2: String|
        #[trigger] call_ensures(U::print, (unit, x), r1) && #[trigger] call_ensures(
            U::print,
            (unit, x),
            r2,
        ) ==> r1@ == r2@
}

/// The unit may answer `r` when asked to read the characters `text`.
pub open spec fn decodes<U: RealUnit>(unit: &U, text: Seq<char>, r: Option<Real>) -> bool {
    exists|t: &str| #![trigger t@] t@ == text && call_ensures(U::decode, (unit, t), r)
}

/// The unit may print the characters `s` for `x`.
pub open spec fn prints<U: RealUnit>(unit: &U, x: Real, s: Seq<char>) -> bool {
    exists|r: String| #![trigger r@] r@ == s && call_ensures(U::print, (unit, x), r)
}

/// What the unit answers for `a op b`.
pub open spec fn real_arith<U: RealUnit>(unit: &U, op: RealOp, a: Real, b: Real) -> Real {
    choose|r: Real| call_ensures(U::arithmetic, (unit, op, a, b), r)
}

/// What the unit answers for `function` of `x`.
pub open spec fn real_function<U: RealUnit>(unit: &U, function: RealFunction, x: Real) -> Real {
    choose|r: Real| call_ensures(U::function, (unit, function, x), r)
}

/// What the unit answers for the decimal `text`.
pub open spec fn real_decode<U: RealUnit>(unit: &U, text: Seq<char>) -> Option<Real> {
    choose|r: Option<Real>| decodes(unit, text, r)
}

/// What the unit prints for `x`.
pub open spec fn real_print<U: RealUnit>(unit: &U, x: Real) -> Seq<char> {
    choose|s: Seq<char>| prints(unit, x, s)
}

/// Asks the unit for `a op b`.
pub fn arithmetic<U: RealUnit>(unit: &U, op: RealOp, a: Real, b: Real) -> (r: Real)
    requires
        unit_ready(unit),
    ensures
        r == real_arith(unit, op, a, b),
{
    unit.arithmetic(op, a, b)
}

/// Asks the unit for `function` of `x`.
pub fn apply_function<U: RealUnit>(unit: &U, which: RealFunction, x: Real) -> (r: Real)
    requires
        unit_ready(unit),
    ensures
        r == real_function(unit, which, x),
{
    unit.function(which, x)
}

/// Asks the unit to read the decimal `text`.
pub fn decode<U: RealUnit>(unit: &U, text: &str) -> (r: Option<Real>)
    requires
        unit_ready(unit),
    ensures
        r == real_decode(unit, text@),
{
    let r = unit.decode(text);
    assert(decodes(unit, text@, r));
    r
}

/// Asks the unit to print `x`.
pub fn print<U: RealUnit>(unit: &U, x: Real) -> (r: String)
    requires
        unit_ready(unit),
    ensures
        r@ == real_print(unit, x),
{
    let r = unit.print(x);
    assert(prints(unit, x, r@));
    r
}

/// The bits of the not-a-number that [`Exact`] answers with.
pub const NAN_BITS: u64 = 0x7ff8_0000_0000_0000;

/// The unit of a session that keeps to exact integers: it reads no
/// decimal, so that no literal is inexact, and answers every other
/// request with the same not-a-number.
pub struct Exact;

impl RealUnit for Exact {
    fn arithmetic(&self, op: RealOp, a: Real, b: Real) -> (r: Real)
        ensures
            r == (Real { bits: NAN_BITS }),
    {
        Real { bits: NAN_BITS }
    }

    fn function(&self, function: RealFunction, x: Real) -> (r: Real)
        ensures
            r == (Real { bits: NAN_BITS }),
    {
        Real { bits: NAN_BITS }
    }

    fn decode(&self, text: &str) -> (r: Option<Real>)
        ensures
            r is None,
    {
        None
    }

    fn print(&self, x: Real) -> (r: String)
        ensures
            r@ == "nan"@,
    {
        "nan".to_owned()
    }
}

/// [`Exact`] is a unit that the interpreter can be run with.
pub proof fn exact_is_ready(unit: &Exact)
    ensures
        unit_ready(unit),
{
}

} // verus!
