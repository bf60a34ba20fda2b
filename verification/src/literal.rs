//! The grammar of number literals: which texts write an integer, and how a
//! text that writes a complex number falls into its parts.
use vstd::prelude::*;
use crate::error::{ParseError, ParseErrorView};
use crate::lexer::digit;
use crate::number::Number;
use crate::reals::{
    apply_function, arithmetic, decode, real_arith, real_decode, real_function, unit_ready, Real,
    RealFunction, RealOp, RealUnit,
};
use crate::text::{chars_of, text_of};

verus! {

/// The number written by a run of decimal digits.
pub open spec fn digits_value(s: Seq<char>) -> nat
    decreases s.len(),
{
    if s.len() == 0 {
        0
    } else {
        digits_value(s.drop_last()) * 10 + ((s.last() as int) - 48) as nat
    }
}

/// The position after the run of digits that begins at `i`.
pub open spec fn digits_end(s: Seq<char>, i: int) -> int
    decreases s.len() - i,
{
    if 0 <= i < s.len() && digit(s[i]) {
        digits_end(s, i + 1)
    } else {
        i
    }
}

/// Whether `s` begins with a sign.
pub open spec fn signed(s: Seq<char>) -> bool {
    s.len() > 0 && (s[0] == '+' || s[0] == '-')
}

/// Where the digits of `s` begin: after the sign, if it has one.
pub open spec fn body_start(s: Seq<char>) -> int {
    if signed(s) {
        1
    } else {
        0
    }
}

/// The integer that `s` writes: an optional sign and one digit at least,
/// with a value that a machine integer holds.
pub open spec fn integer_literal(s: Seq<char>) -> Option<i32> {
    let start = body_start(s);
    if start < s.len() && digits_end(s, start) == s.len() {
        let magnitude = digits_value(s.subrange(start, s.len() as int));
        let value = if s[0] == '-' {
            -magnitude
        } else {
            magnitude as int
        };
        if i32::MIN <= value <= i32::MAX {
            Some(value as i32)
        } else {
            None
        }
    } else {
        None
    }
}

/// Whether `s` from `i` on is one digit at least, then perhaps a point and
/// one digit at least, and nothing more.
pub open spec fn decimal_from(s: Seq<char>, i: int) -> bool {
    let whole = digits_end(s, i);
    whole > i && (whole == s.len() || (s[whole] == '.' && digits_end(s, whole + 1) > whole + 1
        && digits_end(s, whole + 1) == s.len()))
}

/// A decimal with an optional sign.
pub open spec fn decimal_shape(s: Seq<char>) -> bool {
    decimal_from(s, body_start(s))
}

/// A decimal that begins with a sign.
pub open spec fn signed_decimal(s: Seq<char>) -> bool {
    signed(s) && decimal_from(s, 1)
}

/// A sign standing alone.
pub open spec fn lone_sign(s: Seq<char>) -> bool {
    s.len() == 1 && signed(s)
}

/// The last position after the first of `s[..end]` where a sign stands, or
/// 0 where none does.
pub open spec fn last_sign(s: Seq<char>, end: int) -> int
    decreases end,
{
    if end <= 1 || end > s.len() {
        0
    } else if s[end - 1] == '+' || s[end - 1] == '-' {
        end - 1
    } else {
        last_sign(s, end - 1)
    }
}

/// The first position at or after `i` where `c` stands, or the length of
/// `s` where it does not occur.
pub open spec fn first_from(s: Seq<char>, c: char, i: int) -> int
    decreases s.len() - i,
{
    if i < 0 || i >= s.len() {
        s.len() as int
    } else if s[i] == c {
        i
    } else {
        first_from(s, c, i + 1)
    }
}

/// The second part of a complex literal as the literal writes it.
pub enum Imaginary {
    /// The decimal of the imaginary part.
    Decimal(Seq<char>),
    /// The bare unit `i` under a sign: `true` for `+i`.
    Unit(bool),
    /// The decimal of the angle of a polar literal, in radians; the first
    /// part is then the magnitude.
    Angle(Seq<char>),
}

/// The parts of a complex literal.
pub struct ComplexShape {
    /// The decimal of the real part, or of the magnitude of a polar
    /// literal, where the literal has one.
    pub real: Option<Seq<char>>,
    pub imaginary: Imaginary,
}

/// How `s` falls into the parts of a complex number. With `D` a decimal
/// with an optional sign and `S` a decimal with a sign, the forms are
/// `DSi`, `D+i`, `D-i`, `Di`, `+i`, `-i`, then `DiS`, `+iS`, `-iS`, and
/// the polar `D@D`, a magnitude and an angle.
pub open spec fn complex_shape(s: Seq<char>) -> Option<ComplexShape> {
    let n = s.len() as int;
    if n >= 1 && s[n - 1] == 'i' {
        let body = s.subrange(0, n - 1);
        if lone_sign(body) {
            Some(ComplexShape { real: None, imaginary: Imaginary::Unit(body[0] == '+') })
        } else if decimal_shape(body) {
            Some(ComplexShape { real: None, imaginary: Imaginary::Decimal(body) })
        } else {
            let k = last_sign(body, n - 1);
            let head = body.subrange(0, k);
            let tail = body.subrange(k, n - 1);
            if k >= 1 && decimal_shape(head) && lone_sign(tail) {
                Some(ComplexShape { real: Some(head), imaginary: Imaginary::Unit(tail[0] == '+') })
            } else if k >= 1 && decimal_shape(head) && signed_decimal(tail) {
                Some(ComplexShape { real: Some(head), imaginary: Imaginary::Decimal(tail) })
            } else {
                None
            }
        }
    } else if first_from(s, 'i', 0) < n {
        let k = first_from(s, 'i', 0);
        let head = s.subrange(0, k);
        let tail = s.subrange(k + 1, n);
        if signed_decimal(tail) && lone_sign(head) {
            Some(ComplexShape { real: Some(tail), imaginary: Imaginary::Unit(head[0] == '+') })
        } else if signed_decimal(tail) && decimal_shape(head) {
            Some(ComplexShape { real: Some(tail), imaginary: Imaginary::Decimal(head) })
        } else {
            None
        }
    } else if first_from(s, '@', 0) < n {
        let k = first_from(s, '@', 0);
        let head = s.subrange(0, k);
        let tail = s.subrange(k + 1, n);
        if decimal_shape(head) && decimal_shape(tail) {
            Some(ComplexShape { real: Some(head), imaginary: Imaginary::Angle(tail) })
        } else {
            None
        }
    } else {
        None
    }
}

/// The complex number of magnitude `r` and angle `angle`, in radians: its
/// real part is `r` times the cosine of the angle, its imaginary part `r`
/// times the sine.
pub open spec fn polar<U: RealUnit>(unit: &U, r: Real, angle: Real) -> Number {
    Number::Complex(
        real_arith(unit, RealOp::Mul, r, real_function(unit, RealFunction::Cos, angle)),
        real_arith(unit, RealOp::Mul, r, real_function(unit, RealFunction::Sin, angle)),
    )
}

/// The complex number of the parts `shape`, each decimal read by the
/// unit: a missing real part is zero and a bare `i` one; a polar literal
/// gives the number of its magnitude and angle. Nothing where the unit
/// does not read a decimal.
pub open spec fn complex_literal<U: RealUnit>(unit: &U, shape: ComplexShape) -> Option<Number> {
    let first = match shape.real {
        Some(text) => real_decode(unit, text),
        None => Some(Real::spec_zero()),
    };
    match first {
        None => None,
        Some(r) => match shape.imaginary {
            Imaginary::Decimal(text) => match real_decode(unit, text) {
                Some(i) => Some(Number::Complex(r, i)),
                None => None,
            },
            Imaginary::Unit(plus) => Some(
                Number::Complex(
                    r,
                    if plus {
                        Real::spec_one()
                    } else {
                        Real::spec_minus_one()
                    },
                ),
            ),
            Imaginary::Angle(text) => match real_decode(unit, text) {
                Some(angle) => Some(polar(unit, r, angle)),
                None => None,
            },
        },
    }
}

/// The number that the literal `s` writes: an integer where it writes one;
/// else the real that the unit reads from the whole text; else the
/// complex number of its parts. Any other text is no number.
pub open spec fn number_literal<U: RealUnit>(unit: &U, s: Seq<char>) -> Result<
    Number,
    ParseErrorView,
> {
    match integer_literal(s) {
        Some(i) => Ok(Number::Integer(i)),
        None => match real_decode(unit, s) {
            Some(r) => Ok(Number::Real(r)),
            None => match complex_shape(s) {
                None => Err(ParseErrorView::InvalidNumber(s)),
                Some(shape) => match complex_literal(unit, shape) {
                    Some(number) => Ok(number),
                    None => Err(ParseErrorView::InvalidNumber(s)),
                },
            },
        },
    }
}

/// The run of digits that begins at `i` ends inside the text and holds
/// digits alone.
pub proof fn lemma_digits_end(s: Seq<char>, i: int)
    requires
        0 <= i <= s.len(),
    ensures
        i <= digits_end(s, i) <= s.len(),
        forall|j: int| i <= j < digits_end(s, i) ==> digit(#[trigger] s[j]),
    decreases s.len() - i,
{
    if i < s.len() && digit(s[i]) {
        lemma_digits_end(s, i + 1);
    }
}

fn is_signed(chars: &Vec<char>) -> (yes: bool)
    ensures
        yes == signed(chars@),
{
    chars.len() > 0 && (chars[0] == '+' || chars[0] == '-')
}

fn is_lone_sign(chars: &Vec<char>) -> (yes: bool)
    ensures
        yes == lone_sign(chars@),
{
    chars.len() == 1 && is_signed(chars)
}

fn end_of_digits(chars: &Vec<char>, from: usize) -> (end: usize)
    requires
        from <= chars.len(),
    ensures
        end == digits_end(chars@, from as int),
        from <= end <= chars.len(),
{
    let mut end = from;
    while end < chars.len() && crate::lexer::is_digit(chars[end])
        invariant
            from <= end <= chars.len(),
            digits_end(chars@, end as int) == digits_end(chars@, from as int),
        decreases chars.len() - end,
    {
        end += 1;
    }
    end
}

fn is_decimal_from(chars: &Vec<char>, from: usize) -> (yes: bool)
    requires
        from <= chars.len(),
    ensures
        yes == decimal_from(chars@, from as int),
{
    let whole = end_of_digits(chars, from);
    if whole == from {
        false
    } else if whole == chars.len() {
        true
    } else if chars[whole] == '.' {
        let fraction = end_of_digits(chars, whole + 1);
        fraction > whole + 1 && fraction == chars.len()
    } else {
        false
    }
}

fn is_decimal_shape(chars: &Vec<char>) -> (yes: bool)
    ensures
        yes == decimal_shape(chars@),
{
    if is_signed(chars) {
        is_decimal_from(chars, 1)
    } else {
        is_decimal_from(chars, 0)
    }
}

fn is_signed_decimal(chars: &Vec<char>) -> (yes: bool)
    ensures
        yes == signed_decimal(chars@),
{
    is_signed(chars) && is_decimal_from(chars, 1)
}

fn part(chars: &Vec<char>, from: usize, to: usize) -> (piece: Vec<char>)
    requires
        from <= to <= chars.len(),
    ensures
        piece@ == chars@.subrange(from as int, to as int),
{
    let mut piece: Vec<char> = Vec::new();
    let mut index = from;
    while index < to
        invariant
            from <= index <= to <= chars.len(),
            piece@ == chars@.subrange(from as int, index as int),
        decreases to - index,
    {
        piece.push(chars[index]);
        index += 1;
        assert(chars@.subrange(from as int, index as int) == chars@.subrange(
            from as int,
            index - 1,
        ).push(chars@[index - 1]));
    }
    piece
}

fn find_last_sign(chars: &Vec<char>, end: usize) -> (found: usize)
    requires
        end <= chars.len(),
    ensures
        found == last_sign(chars@, end as int),
        found < end || found == 0,
{
    let mut at = end;
    while at > 1
        invariant
            at <= end <= chars.len(),
            last_sign(chars@, at as int) == last_sign(chars@, end as int),
        decreases at,
    {
        if chars[at - 1] == '+' || chars[at - 1] == '-' {
            return at - 1;
        }
        at -= 1;
    }
    0
}

fn find_first(chars: &Vec<char>, c: char) -> (found: usize)
    ensures
        found == first_from(chars@, c, 0),
        found <= chars.len(),
        found < chars.len() ==> chars@[found as int] == c,
{
    let mut at: usize = 0;
    while at < chars.len()
        invariant
            at <= chars.len(),
            first_from(chars@, c, at as int) == first_from(chars@, c, 0),
        decreases chars.len() - at,
    {
        if chars[at] == c {
            return at;
        }
        at += 1;
    }
    at
}

proof fn lemma_digits_value_grows(s: Seq<char>, k: int)
    requires
        0 <= k <= s.len(),
        forall|j: int| 0 <= j < s.len() ==> digit(#[trigger] s[j]),
    ensures
        digits_value(s.take(k)) <= digits_value(s),
    decreases s.len() - k,
{
    if k < s.len() {
        lemma_digits_value_grows(s, k + 1);
        assert(s.take(k + 1).drop_last() == s.take(k));
    } else {
        assert(s.take(k) == s);
    }
}

/// Reads an integer literal.
pub fn read_integer(chars: &Vec<char>) -> (value: Option<i32>)
    ensures
        value == integer_literal(chars@),
{
    let start: usize = if is_signed(chars) {
        1
    } else {
        0
    };
    if start >= chars.len() {
        return None;
    }
    let end = end_of_digits(chars, start);
    if end != chars.len() {
        return None;
    }
    let ghost body = chars@.subrange(start as int, chars.len() as int);
    proof {
        lemma_digits_end(chars@, start as int);
    }
    let mut magnitude: u64 = 0;
    let mut index = start;
    while index < chars.len()
        invariant
            start <= index <= chars.len(),
            body == chars@.subrange(start as int, chars.len() as int),
            forall|j: int| 0 <= j < body.len() ==> digit(#[trigger] body[j]),
            magnitude == digits_value(body.take(index - start)),
            magnitude <= 0x8000_0000,
            start == body_start(chars@),
            digits_end(chars@, start as int) == chars@.len(),
        decreases chars.len() - index,
    {
        let c = chars[index];
        assert(c == body[index - start]);
        let d: u64 = (c as u8 - 48u8) as u64;
        assert(body.take(index - start + 1).drop_last() == body.take(index - start));
        assert(body.take(index - start + 1).last() == c);
        assert(digits_value(body.take(index - start + 1)) == magnitude * 10 + d);
        if magnitude * 10 + d > 0x8000_0000 {
            proof {
                lemma_digits_value_grows(body, index - start + 1);
            }
            return None;
        }
        magnitude = magnitude * 10 + d;
        index += 1;
    }
    assert(body.take(index - start) == body);
    if chars[0] == '-' {
        Some((-(magnitude as i64)) as i32)
    } else if magnitude <= 0x7fff_ffff {
        Some(magnitude as i32)
    } else {
        None
    }
}

/// The parts of a complex literal, as characters.
pub enum ImaginaryPart {
    Decimal(Vec<char>),
    Unit(bool),
    Angle(Vec<char>),
}

impl View for ImaginaryPart {
    type V = Imaginary;

    open spec fn view(&self) -> Imaginary {
        match self {
            ImaginaryPart::Decimal(text) => Imaginary::Decimal(text@),
            ImaginaryPart::Unit(plus) => Imaginary::Unit(*plus),
            ImaginaryPart::Angle(text) => Imaginary::Angle(text@),
        }
    }
}

/// The mathematical content of the parts that `split_complex` returns.
pub open spec fn shape_of(parts: Option<(Option<Vec<char>>, ImaginaryPart)>) -> Option<
    ComplexShape,
> {
    match parts {
        Some((Some(decimal), imaginary)) => Some(
            ComplexShape { real: Some(decimal@), imaginary: imaginary@ },
        ),
        Some((None, imaginary)) => Some(ComplexShape { real: None, imaginary: imaginary@ }),
        None => None,
    }
}

/// Splits a complex literal into its parts.
pub fn split_complex(chars: &Vec<char>) -> (parts: Option<(Option<Vec<char>>, ImaginaryPart)>)
    ensures
        shape_of(parts) == complex_shape(chars@),
{
    let n = chars.len();
    if n >= 1 && chars[n - 1] == 'i' {
        let body = part(chars, 0, n - 1);
        if is_lone_sign(&body) {
            Some((None, ImaginaryPart::Unit(body[0] == '+')))
        } else if is_decimal_shape(&body) {
            Some((None, ImaginaryPart::Decimal(body)))
        } else {
            let k = find_last_sign(&body, n - 1);
            let head = part(&body, 0, k);
            let tail = part(&body, k, n - 1);
            if k >= 1 && is_decimal_shape(&head) && is_lone_sign(&tail) {
                Some((Some(head), ImaginaryPart::Unit(tail[0] == '+')))
            } else if k >= 1 && is_decimal_shape(&head) && is_signed_decimal(&tail) {
                Some((Some(head), ImaginaryPart::Decimal(tail)))
            } else {
                None
            }
        }
    } else {
        let k = find_first(chars, 'i');
        if k < n {
            let head = part(chars, 0, k);
            let tail = part(chars, k + 1, n);
            if is_signed_decimal(&tail) && is_lone_sign(&head) {
                Some((Some(tail), ImaginaryPart::Unit(head[0] == '+')))
            } else if is_signed_decimal(&tail) && is_decimal_shape(&head) {
                Some((Some(tail), ImaginaryPart::Decimal(head)))
            } else {
                None
            }
        } else {
            let k = find_first(chars, '@');
            if k < n {
                let head = part(chars, 0, k);
                let tail = part(chars, k + 1, n);
                if is_decimal_shape(&head) && is_decimal_shape(&tail) {
                    Some((Some(head), ImaginaryPart::Angle(tail)))
                } else {
                    None
                }
            } else {
                None
            }
        }
    }
}

fn decode_part<U: RealUnit>(unit: &U, chars: &Vec<char>) -> (r: Option<Real>)
    requires
        unit_ready(unit),
    ensures
        r == real_decode(unit, chars@),
{
    let text = text_of(chars, 0, chars.len());
    assert(chars@.subrange(0, chars@.len() as int) == chars@);
    decode(unit, text.as_str())
}

/// The mathematical content of a decoded literal.
pub open spec fn literal_of(read: Result<Number, ParseError>) -> Result<Number, ParseErrorView> {
    match read {
        Ok(number) => Ok(number),
        Err(fault) => Err(fault@),
    }
}

impl Number {
    /// Decodes a number literal.
    pub fn try_from<U: RealUnit>(value: &str, unit: &U) -> (read: Result<Number, ParseError>)
        requires
            unit_ready(unit),
        ensures
            literal_of(read) == number_literal(unit, value@),
    {
        let chars = chars_of(value);
        match read_integer(&chars) {
            Some(i) => {
                return Ok(Number::Integer(i));
            },
            None => {},
        }
        match decode(unit, value) {
            Some(r) => {
                return Ok(Number::Real(r));
            },
            None => {},
        }
        match split_complex(&chars) {
            None => Err(ParseError::InvalidNumber(value.to_owned())),
            Some((real_text, second)) => {
                let first = match real_text {
                    Some(text) => decode_part(unit, &text),
                    None => Some(Real::zero_value()),
                };
                let number = match first {
                    None => None,
                    Some(r) => match second {
                        ImaginaryPart::Decimal(text) => match decode_part(unit, &text) {
                            Some(i) => Some(Number::Complex(r, i)),
                            None => None,
                        },
                        ImaginaryPart::Unit(plus) => Some(
                            Number::Complex(
                                r,
                                if plus {
                                    Real::one()
                                } else {
                                    Real::minus_one()
                                },
                            ),
                        ),
                        ImaginaryPart::Angle(text) => match decode_part(unit, &text) {
                            Some(angle) => Some(from_polar(unit, r, angle)),
                            None => None,
                        },
                    },
                };
                match number {
                    Some(number) => Ok(number),
                    None => Err(ParseError::InvalidNumber(value.to_owned())),
                }
            },
        }
    }
}

/// The complex number of magnitude `r` and angle `angle`.
pub fn from_polar<U: RealUnit>(unit: &U, r: Real, angle: Real) -> (number: Number)
    requires
        unit_ready(unit),
    ensures
        number == polar(unit, r, angle),
{
    let cosine = apply_function(unit, RealFunction::Cos, angle);
    let sine = apply_function(unit, RealFunction::Sin, angle);
    Number::Complex(
        arithmetic(unit, RealOp::Mul, r, cosine),
        arithmetic(unit, RealOp::Mul, r, sine),
    )
}

} // verus!
