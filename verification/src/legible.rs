//! Complex numbers in texts. A complex number whose parts are written as
//! decimals is read from its text as a number that is written as the same
//! text; so an expression that holds such numbers is written, read and
//! written again as the same text, though what is read may differ from it
//! in the sign of a zero or in the kind of a number without imaginary
//! part.
use vstd::prelude::*;
use crate::data_model::Datum;
use crate::error::ParseErrorView;
use crate::lexer::{digit, lex, numeric};
use crate::literal::{
    body_start, complex_shape, decimal_from, decimal_shape, digits_end, integer_literal,
    last_sign, lemma_digits_end, lone_sign, number_literal, signed, signed_decimal, ComplexShape,
    Imaginary,
};
use crate::number::Number;
use crate::printer::{print_datum, print_items, print_rest};
use crate::reading::{lemma_lexed_identifiers, lemma_parsed_shaped, read, shaped};
use crate::reals::{real_decode, real_print, Real, RealUnit};
use crate::roundtrip::{
    decimal_real, number_text, plain, read_back, unescaped_text, written_text_reads_back,
};

verus! {

/// The part `x` of a complex number is written as `text`: a decimal,
/// which the unit reads as `x`.
pub open spec fn part_written<U: RealUnit>(unit: &U, x: Real, text: Seq<char>) -> bool {
    decimal_shape(text) && real_decode(unit, text) == Some(x)
}

/// A complex number whose parts are written as decimals that the unit
/// reads back. Where the imaginary part is zero the number is written as
/// a real, which the unit reads back from what it prints. Else the unit
/// reads the whole text as no real; a real part that is not zero is
/// printed as a decimal that the unit reads back; and an imaginary part
/// other than one and minus one is written as a decimal that the unit
/// reads back: as it is printed, with its sign, or after the `+` that
/// stands between the parts where it is positive.
pub open spec fn decimal_complex<U: RealUnit>(unit: &U, r: Real, i: Real) -> bool {
    let zero = Real::spec_zero();
    let re = real_print(unit, r);
    let im = real_print(unit, i);
    if i.same(zero) {
        decimal_real(unit, r)
    } else {
        &&& real_decode(unit, Number::Complex(r, i).text(unit)) is None
        &&& (!r.same(zero) ==> part_written(unit, r, re))
        &&& (!i.same(Real::spec_one()) && !i.same(Real::spec_minus_one()) ==> if r.same(zero) {
            part_written(unit, i, im)
        } else if zero.less(i) {
            part_written(unit, i, seq!['+'] + im)
        } else {
            signed(im) && part_written(unit, i, im)
        })
    }
}

/// A decimal has a digit where it begins and at its end, and between
/// them digits and points alone.
proof fn lemma_decimal_chars(s: Seq<char>, start: int)
    requires
        0 <= start <= s.len(),
        decimal_from(s, start),
    ensures
        start < s.len(),
        digit(s[start]),
        digit(s[s.len() - 1]),
        forall|j: int| start <= j < s.len() ==> digit(#[trigger] s[j]) || s[j] == '.',
{
    let whole = digits_end(s, start);
    lemma_digits_end(s, start);
    if whole < s.len() {
        lemma_digits_end(s, whole + 1);
    }
}

/// A decimal with an optional sign is no lone sign, ends in a digit and
/// has no sign after its first character.
proof fn lemma_decimal_shape(s: Seq<char>)
    requires
        decimal_shape(s),
    ensures
        s.len() > 0,
        !lone_sign(s),
        digit(s[s.len() - 1]),
        digit(s[0]) || (signed(s) && s.len() > 1 && digit(s[1])),
        forall|j: int| 1 <= j < s.len() ==> digit(#[trigger] s[j]) || s[j] == '.',
        forall|j: int| 0 <= j < s.len() ==> numeric(#[trigger] s[j]),
{
    lemma_decimal_chars(s, body_start(s));
}

/// The last sign of a text stands where a sign stands that no sign
/// follows.
proof fn lemma_last_sign(s: Seq<char>, end: int, k: int)
    requires
        1 <= k < end <= s.len(),
        s[k] == '+' || s[k] == '-',
        forall|j: int| k < j < end ==> #[trigger] s[j] != '+' && s[j] != '-',
    ensures
        last_sign(s, end) == k,
    decreases end - k,
{
    if end - 1 > k {
        lemma_last_sign(s, end - 1, k);
    }
}

/// A text that ends in `i` writes no integer.
proof fn lemma_no_integer(s: Seq<char>)
    requires
        s.len() > 0,
        s[s.len() - 1] == 'i',
    ensures
        integer_literal(s) is None,
{
    let start = body_start(s);
    if start < s.len() {
        lemma_digits_end(s, start);
    }
}

/// A sign alone or a decimal, before `i`, is an imaginary part without a
/// real one.
proof fn lemma_one_part(s: Seq<char>, body: Seq<char>)
    requires
        s == body + seq!['i'],
        lone_sign(body) || decimal_shape(body),
    ensures
        complex_shape(s) == Some(
            ComplexShape {
                real: None,
                imaginary: if lone_sign(body) {
                    Imaginary::Unit(body[0] == '+')
                } else {
                    Imaginary::Decimal(body)
                },
            },
        ),
{
    let n = s.len() as int;
    assert(s[n - 1] == 'i');
    assert(s.subrange(0, n - 1) =~= body);
    if decimal_shape(body) {
        lemma_decimal_shape(body);
    }
}

/// A decimal, then a sign alone or a decimal with a sign, before `i`, are
/// a real part and an imaginary one.
proof fn lemma_two_parts(s: Seq<char>, head: Seq<char>, tail: Seq<char>)
    requires
        s == head + tail + seq!['i'],
        decimal_shape(head),
        lone_sign(tail) || signed_decimal(tail),
    ensures
        complex_shape(s) == Some(
            ComplexShape {
                real: Some(head),
                imaginary: if lone_sign(tail) {
                    Imaginary::Unit(tail[0] == '+')
                } else {
                    Imaginary::Decimal(tail)
                },
            },
        ),
{
    let n = s.len() as int;
    let k = head.len() as int;
    let body = s.subrange(0, n - 1);
    lemma_decimal_shape(head);
    assert(s[n - 1] == 'i');
    assert(body =~= head + tail);
    assert(body.len() == k + tail.len());
    assert(body[k] == tail[0]);
    assert(!lone_sign(body));
    if decimal_shape(body) {
        lemma_decimal_shape(body);
    }
    assert(!decimal_shape(body));
    if signed_decimal(tail) {
        lemma_decimal_chars(tail, 1);
    }
    assert forall|j: int| k < j < n - 1 implies #[trigger] body[j] != '+' && body[j] != '-' by {
        assert(body[j] == tail[j - k]);
    }
    lemma_last_sign(body, n - 1, k);
    assert(body.subrange(0, k) =~= head);
    assert(body.subrange(k, n - 1) =~= tail);
    if signed_decimal(tail) {
        assert(!lone_sign(tail));
    }
}

/// The number that is read from the text of the complex number of parts
/// `r` and `i`: the parts themselves, a real part that is zero being
/// read as the positive zero; the real number `r` where the imaginary
/// part is zero.
pub open spec fn reread_number(number: Number) -> Number {
    match number {
        Number::Complex(r, i) => if i.same(Real::spec_zero()) {
            Number::Real(r)
        } else if r.same(Real::spec_zero()) {
            Number::Complex(Real::spec_zero(), i)
        } else {
            number
        },
        other => other,
    }
}

/// A complex number whose parts are written as decimals is read from its
/// text, as the number that `reread_number` gives, and that number is
/// written as the same text.
pub proof fn lemma_complex_text<U: RealUnit>(unit: &U, r: Real, i: Real)
    requires
        decimal_complex(unit, r, i),
    ensures
        number_text(Number::Complex(r, i).text(unit)),
        number_literal(unit, Number::Complex(r, i).text(unit)) == Ok::<Number, ParseErrorView>(
            reread_number(Number::Complex(r, i)),
        ),
        reread_number(Number::Complex(r, i)).text(unit) == Number::Complex(r, i).text(unit),
        plain(unit, Datum::Number(reread_number(Number::Complex(r, i)))),
{
    reveal_strlit("+i");
    reveal_strlit("-i");
    reveal_strlit("i");
    reveal_strlit("+");
    let zero = Real::spec_zero();
    let one = Real::spec_one();
    let minus_one = Real::spec_minus_one();
    let number = Number::Complex(r, i);
    let text = number.text(unit);
    let re = real_print(unit, r);
    let im = real_print(unit, i);
    let read = reread_number(number);
    if i.same(zero) {
        assert(text == re);
    } else {
        assert(i.same(one) ==> i == one);
        assert(i.same(minus_one) ==> i == minus_one);
        assert(zero.same(zero));
        assert(read.text(unit) == text);
        if r.same(zero) {
            if i.same(one) {
                assert(text =~= seq!['+'] + seq!['i']);
                lemma_one_part(text, seq!['+']);
            } else if i.same(minus_one) {
                assert(text =~= seq!['-'] + seq!['i']);
                lemma_one_part(text, seq!['-']);
            } else {
                assert(text =~= im + seq!['i']);
                lemma_decimal_shape(im);
                lemma_one_part(text, im);
            }
        } else {
            lemma_decimal_shape(re);
            if i.same(one) {
                assert(text =~= re + seq!['+'] + seq!['i']);
                lemma_two_parts(text, re, seq!['+']);
            } else if i.same(minus_one) {
                assert(text =~= re + seq!['-'] + seq!['i']);
                lemma_two_parts(text, re, seq!['-']);
            } else if zero.less(i) {
                let tail = seq!['+'] + im;
                assert(text =~= re + tail + seq!['i']);
                lemma_decimal_shape(tail);
                lemma_two_parts(text, re, tail);
            } else {
                assert(text =~= re + im + seq!['i']);
                lemma_decimal_shape(im);
                lemma_two_parts(text, re, im);
            }
        }
        lemma_no_integer(text);
        assert(number_text(text));
        assert(number_literal(unit, text) == Ok::<Number, ParseErrorView>(read));
    }
}

/// The expressions that are written as a text from which an expression
/// written as the same text is read: as those that are read back as
/// themselves, but that their complex numbers need only have parts
/// written as decimals.
pub open spec fn legible<U: RealUnit>(unit: &U, d: Datum) -> bool
    decreases d,
{
    match d {
        Datum::Number(Number::Complex(r, i)) => decimal_complex(unit, r, i),
        Datum::Pair(car, cdr) => legible(unit, *car) && legible(unit, *cdr),
        Datum::Vector(slots) => forall|i: int|
            0 <= i < slots.len() ==> legible(unit, #[trigger] slots[i]),
        other => plain(unit, other),
    }
}

/// The expression that is read from the text of `d`: `d` with each of
/// its numbers as it is read from its text.
pub open spec fn reread(d: Datum) -> Datum
    decreases d, 0int,
{
    match d {
        Datum::Number(number) => Datum::Number(reread_number(number)),
        Datum::Pair(car, cdr) => Datum::Pair(Box::new(reread(*car)), Box::new(reread(*cdr))),
        Datum::Vector(slots) => Datum::Vector(reread_items(slots, slots.len())),
        other => other,
    }
}

/// The first `count` of `slots`, each as it is read from its text.
pub open spec fn reread_items(slots: Seq<Datum>, count: nat) -> Seq<Datum>
    decreases slots, count,
{
    if count == 0 || count > slots.len() {
        Seq::empty()
    } else {
        reread_items(slots, (count - 1) as nat).push(reread(slots[count - 1]))
    }
}

proof fn lemma_reread_items(slots: Seq<Datum>, count: nat)
    requires
        count <= slots.len(),
    ensures
        reread_items(slots, count).len() == count,
        forall|j: int| 0 <= j < count ==> #[trigger] reread_items(slots, count)[j] == reread(slots[j]),
    decreases count,
{
    if count > 0 {
        lemma_reread_items(slots, (count - 1) as nat);
    }
}

proof fn lemma_same_items<U: RealUnit>(unit: &U, a: Seq<Datum>, b: Seq<Datum>, count: nat)
    requires
        a.len() == b.len(),
        count <= a.len(),
        forall|j: int| 0 <= j < a.len() ==> print_datum(unit, #[trigger] a[j]) == print_datum(unit, b[j]),
    ensures
        print_items(unit, a, count) == print_items(unit, b, count),
    decreases count,
{
    if count > 1 {
        lemma_same_items(unit, a, b, (count - 1) as nat);
    }
}

/// What is read from the text of a legible expression is read back as
/// itself, and is written as the text of the expression.
pub proof fn lemma_reread<U: RealUnit>(unit: &U, d: Datum)
    requires
        legible(unit, d),
    ensures
        plain(unit, reread(d)),
        print_datum(unit, reread(d)) == print_datum(unit, d),
        print_rest(unit, reread(d)) == print_rest(unit, d),
    decreases d,
{
    match d {
        Datum::Number(number) => {
            match number {
                Number::Complex(r, i) => {
                    lemma_complex_text(unit, r, i);
                },
                _ => {},
            }
        },
        Datum::Pair(car, cdr) => {
            lemma_reread(unit, *car);
            lemma_reread(unit, *cdr);
        },
        Datum::Vector(slots) => {
            let read = reread_items(slots, slots.len());
            lemma_reread_items(slots, slots.len());
            assert forall|j: int| 0 <= j < slots.len() implies plain(unit, #[trigger] read[j])
                && print_datum(unit, read[j]) == print_datum(unit, slots[j]) by {
                lemma_reread(unit, slots[j]);
            }
            lemma_same_items(unit, read, slots, slots.len());
        },
        _ => {},
    }
}

/// The text written for an expression is read, and what is read is
/// written as the same text again. This holds of every expression whose
/// strings hold no quote and no backslash, whose symbols are identifiers
/// in lower case, whose reals the unit reads back from what it prints and
/// whose complex numbers have parts written as decimals. What is read is
/// the expression itself but for its complex numbers: one without
/// imaginary part is read as a real, and a real part that is zero is read
/// as the positive zero.
pub proof fn written_text_is_written_again<U: RealUnit>(unit: &U, d: Datum)
    requires
        legible(unit, d),
    ensures
        read_back(unit, d) == Some(reread(d)),
        print_datum(unit, reread(d)) == print_datum(unit, d),
        read_back(unit, reread(d)) == Some(reread(d)),
{
    lemma_reread(unit, d);
    written_text_reads_back(unit, reread(d));
}

/// The expressions whose strings hold no quote and no backslash, whose
/// reals the unit reads back from what it prints and whose complex
/// numbers have parts written as decimals.
pub open spec fn decimal_numbers<U: RealUnit>(unit: &U, d: Datum) -> bool
    decreases d,
{
    match d {
        Datum::Number(number) => match number {
            Number::Integer(_) => true,
            Number::Real(r) => decimal_real(unit, r),
            Number::Complex(r, i) => decimal_complex(unit, r, i),
        },
        Datum::String(text) => unescaped_text(text),
        Datum::Pair(car, cdr) => decimal_numbers(unit, *car) && decimal_numbers(unit, *cdr),
        Datum::Vector(slots) => forall|i: int|
            0 <= i < slots.len() ==> decimal_numbers(unit, #[trigger] slots[i]),
        _ => true,
    }
}

proof fn lemma_shaped_is_legible<U: RealUnit>(unit: &U, d: Datum)
    requires
        shaped(d),
        decimal_numbers(unit, d),
    ensures
        legible(unit, d),
    decreases d,
{
    match d {
        Datum::Pair(car, cdr) => {
            lemma_shaped_is_legible(unit, *car);
            lemma_shaped_is_legible(unit, *cdr);
        },
        Datum::Vector(slots) => {
            assert forall|i: int| 0 <= i < slots.len() implies legible(unit, #[trigger] slots[i]) by {
                lemma_shaped_is_legible(unit, slots[i]);
            }
        },
        _ => {},
    }
}

/// Whatever is read from a text and then written is read again, and what
/// is then read is written as the same text, as long as the strings of
/// what was read hold no quote and no backslash, its reals are read back
/// by the unit from what it prints and its complex numbers have parts
/// written as decimals.
pub proof fn what_is_read_is_written_again<U: RealUnit>(unit: &U, source: Seq<char>)
    requires
        read(unit, source) matches Some(d) && decimal_numbers(unit, d),
    ensures
        read(unit, source) matches Some(d) && read(unit, print_datum(unit, d)) == Some(reread(d))
            && print_datum(unit, reread(d)) == print_datum(unit, d),
{
    let found = lex(source)->Ok_0;
    lemma_lexed_identifiers(source, 0);
    lemma_parsed_shaped(unit, found, 0);
    let d = read(unit, source)->Some_0;
    lemma_shaped_is_legible(unit, d);
    written_text_is_written_again(unit, d);
}

} // verus!
