use rust_scheme::data_model::{Expression, ExpressionContent, Link};
use rust_scheme::error::ParseError;
use rust_scheme::lexer::TokenBuffer;
use rust_scheme::number::Number;
use rust_scheme::reals::{Real, RealFunction, RealOp, RealUnit};
use rust_scheme::tokenize;
use std::rc::Rc;

struct Ieee;

impl RealUnit for Ieee {
    fn arithmetic(&self, op: RealOp, a: Real, b: Real) -> Real {
        let (x, y) = (f64::from_bits(a.bits), f64::from_bits(b.bits));
        let z = match op {
            RealOp::Add => x + y,
            RealOp::Sub => x - y,
            RealOp::Mul => x * y,
            RealOp::Div => x / y,
            RealOp::Rem => x % y,
            RealOp::Pow => x.powf(y),
        };
        Real { bits: z.to_bits() }
    }

    fn function(&self, function: RealFunction, x: Real) -> Real {
        let x = f64::from_bits(x.bits);
        let z = match function {
            RealFunction::Cos => x.cos(),
            RealFunction::Sin => x.sin(),
            RealFunction::Radians => x.to_radians(),
        };
        Real { bits: z.to_bits() }
    }

    fn decode(&self, text: &str) -> Option<Real> {
        text.parse::<f64>().ok().map(|x| Real { bits: x.to_bits() })
    }

    fn print(&self, x: Real) -> String {
        let value = f64::from_bits(x.bits);
        let text = format!("{}", value);
        if value.is_finite() && !text.contains('.') {
            format!("{}.0", text)
        } else {
            text
        }
    }
}

fn parse(buffer: &mut TokenBuffer) -> Result<Expression, ParseError> {
    rust_scheme::parse(buffer, &Ieee)
}

fn read(source: &str) -> Result<Expression, ParseError> {
    parse(&mut tokenize(source).unwrap())
}

fn written(source: &str) -> String {
    read(source).unwrap().to_string(&Ieee)
}

fn inexact(x: f64) -> Real {
    Real { bits: x.to_bits() }
}

fn number(source: &str) -> Number {
    *read(source).unwrap().as_number().unwrap()
}

#[test]
fn test_parse() {
    let mut buffer = tokenize("(#t #t #t)").unwrap();
    let expression = parse(&mut buffer).unwrap();
    println!("{:?}", expression);
    let mut buffer = tokenize("(1 2 3)").unwrap();
    println!("{:?}", buffer);
    println!("{:?}", parse(&mut buffer).unwrap());
    let mut buffer = tokenize("(2.3@4 2.3+5i +i)").unwrap();
    println!("{:?}", buffer);
    println!("{:?}", parse(&mut buffer).unwrap());
    println!("quote parse: {:?}", parse(&mut tokenize("'x").unwrap()));
    println!("parse empty: {:?}", parse(&mut tokenize("").unwrap()));
    println!(
        "string parse: {:?}",
        parse(&mut tokenize(r#""sdfsdf sdf\n sdfsd sdf \x03B1; \" asd""#).unwrap()).unwrap()
    );
    println!(
        "list parse: {}",
        parse(&mut tokenize("(1 2 3)").unwrap()).unwrap().to_string(&Ieee)
    );
    println!(
        "vector parse: {}",
        parse(&mut tokenize("#(1 2 3)").unwrap()).unwrap().to_string(&Ieee)
    );
    println!("singleton tokenize {:?}", tokenize("(+)"));
    println!("singleton parse {:?}", parse(&mut tokenize("(+)").unwrap()))
}

#[test]
fn test_dotted_pair() {
    assert_eq!(
        parse(&mut tokenize("(1 . 2 3)").unwrap()),
        Err(ParseError::TooMoreObjects)
    );
    assert_eq!(
        parse(&mut tokenize("(1 2 3").unwrap()),
        Err(ParseError::MissingCLoseParenthesis)
    );
    assert_eq!(
        parse(&mut tokenize("(1 2 3 4 . 5)").unwrap()),
        parse(&mut tokenize("(1 . (2 . (3 . (4 . 5))))").unwrap())
    );
    assert_eq!(
        parse(&mut tokenize("(a b c d e)").unwrap()),
        parse(&mut tokenize("(a . (b . (c . (d . (e . ())))))").unwrap())
    );
    println!(
        "dotted pair parse: {}",
        parse(&mut tokenize("(1 2 3 4 . 5)").unwrap()).unwrap().to_string(&Ieee)
    );
}

#[test]
fn test() {
    println!(
        "test nested: {}",
        parse(&mut tokenize("(1 2 3 #(4 5 6 (7 8 . 9)))").unwrap()).unwrap().to_string(&Ieee)
    )
}

#[test]
fn test_quote() {
    println!("quote parse: {:?}", parse(&mut tokenize("'x").unwrap()));
}

#[test]
fn atoms() {
    assert_eq!(
        read("42").unwrap(),
        Expression { content: Link::More(Rc::new(ExpressionContent::Number(Number::Integer(42)))) }
    );
    assert_eq!(read("Hello").unwrap().as_symbol(), Some("hello"));
    assert_eq!(read("#t").unwrap().as_boolean(), Some(&true));
    assert_eq!(read("#true").unwrap().as_boolean(), Some(&true));
    assert_eq!(read("#f").unwrap().as_boolean(), Some(&false));
    assert_eq!(read("#false").unwrap().as_boolean(), Some(&false));
    assert_eq!(read("\"a b\"").unwrap().as_string(), Some("a b"));
    assert_eq!(read("()").unwrap(), Expression { content: Link::Nil });
}

#[test]
fn an_empty_text_is_the_end_of_file() {
    assert_eq!(read(""), Err(ParseError::EOF));
    assert_eq!(read("; only a comment"), Err(ParseError::EOF));
}

#[test]
fn lists_print_as_they_were_read() {
    assert_eq!(written("(1 2 3)"), "(1 2 3)");
    assert_eq!(written("(a b . c)"), "(a b . c)");
    assert_eq!(written("(1 . (2 . (3 . ())))"), "(1 2 3)");
    assert_eq!(written("#(1 2 3)"), "#(1 2 3)");
    assert_eq!(written("#()"), "#()");
    assert_eq!(written("(1 2 3 #(4 5 6 (7 8 . 9)))"), "(1 2 3 #(4 5 6 (7 8 . 9)))");
    assert_eq!(written("(x \"y\" #t #f ())"), "(x \"y\" #t #f ())");
}

#[test]
fn printing_and_reading_again_gives_the_same_text() {
    for source in [
        "(define (sq n) (* n n))",
        "(1 2 3 4 . 5)",
        "#(a #(b) (c . d))",
        "(quote (a b))",
        "(if (= 0 0) (quote yes) (quote no))",
        "(-7 +i 2.5 1+2i)",
    ] {
        let once = written(source);
        let twice = written(&once);
        assert_eq!(once, twice);
    }
}

#[test]
fn what_is_read_is_read_back_as_the_same_expression() {
    for source in [
        "(Define (SQ n) (* n n))",
        "'(+ - ... a->b <=? x1)",
        "#(1 -2 (x . y) \"plain text\" #t)",
        "(0.5 -12.25 100.0)",
    ] {
        let first = read(source).unwrap();
        let again = read(&first.to_string(&Ieee)).unwrap();
        assert_eq!(first, again);
    }
    assert_eq!(written("(Define (SQ n) (* n n))"), "(define (sq n) (* n n))");
}

#[test]
fn a_complex_number_is_written_again_as_it_was_written() {
    for source in [
        "1.5+2.5i",
        "2.5-3.5i",
        "1+0i",
        "1-0.0i",
        "-0.0+2i",
        "0+i",
        "0-i",
        "3i+4",
        "+i",
        "-i",
        "1+i",
        "1-i",
        "-7.5i",
        "2.3@4",
        "1@-1.5",
        "(a 2.5+1.25i #(1-i 0.5i) . 3@1)",
    ] {
        let once = written(source);
        let twice = written(&once);
        assert_eq!(once, twice, "{}", source);
    }
    assert_eq!(written("1.5+2.5i"), "1.5+2.5i");
    assert_eq!(read("1.5+2.5i"), read(&written("1.5+2.5i")));
    assert_eq!(written("1+0i"), "1.0");
    assert_eq!(written("-0.0+2i"), "2.0i");
    assert_eq!(written("(1+1000000000000000000000i)"), "(1.0+1000000000000000000000.0i)");
}

#[test]
fn abbreviations_stand_for_forms() {
    assert_eq!(written("'x"), "(quote x)");
    assert_eq!(written("`x"), "(quasiquote x)");
    assert_eq!(written(",x"), "(unquote x)");
    assert_eq!(written(",@x"), "(unquote-splicing x)");
    assert_eq!(written("'(a b . c)"), "(quote (a b . c))");
}

#[test]
fn comments_are_passed_over() {
    assert_eq!(written("; first\n(1 ; one\n 2)"), "(1 2)");
    assert_eq!(written("(1 2 ; last\n)"), "(1 2)");
}

#[test]
fn misplaced_tokens() {
    assert_eq!(read(")"), Err(ParseError::MissingOpenParenthesis));
    assert_eq!(read("."), Err(ParseError::InvalidDot));
    assert_eq!(read("(1 . )"), Err(ParseError::MissingOpenParenthesis));
    assert_eq!(read("(1 . 2"), Err(ParseError::MissingCLoseParenthesis));
    assert_eq!(read("#(1 2"), Err(ParseError::MissingCLoseParenthesis));
    assert_eq!(read("'"), Err(ParseError::EOF));
    assert_eq!(
        read("#u8(1 2)"),
        Err(ParseError::Unimplemented("bytevector".to_string()))
    );
}

#[test]
fn one_expression_is_taken_at_a_time() {
    let mut buffer = tokenize("1 (2) three").unwrap();
    assert_eq!(parse(&mut buffer).unwrap().to_string(&Ieee), "1");
    assert_eq!(parse(&mut buffer).unwrap().to_string(&Ieee), "(2)");
    assert_eq!(parse(&mut buffer).unwrap().to_string(&Ieee), "three");
    assert_eq!(parse(&mut buffer), Err(ParseError::EOF));
}

#[test]
fn escapes_are_decoded() {
    assert_eq!(
        read(r#""a\nb\tc\\d\"e\rf""#).unwrap().as_string(),
        Some("a\nb\tc\\d\"e\rf")
    );
    assert_eq!(read(r#""\a\b""#).unwrap().as_string(), Some("\x07\x08"));
    assert_eq!(read(r#""\x03B1;""#).unwrap().as_string(), Some("\u{3b1}"));
    assert_eq!(read(r#""\x41;\x62;""#).unwrap().as_string(), Some("Ab"));
    assert_eq!(
        read(r#""sdf \x03B1; \" asd""#).unwrap().as_string(),
        Some("sdf \u{3b1} \" asd")
    );
}

#[test]
fn malformed_hex_escapes() {
    assert_eq!(
        read(r#""\x;""#),
        Err(ParseError::InvalidCharacterEscape("\\x".to_string()))
    );
    assert_eq!(
        read(r#""\x12""#),
        Err(ParseError::InvalidCharacterEscape("\\x12".to_string()))
    );
    assert_eq!(
        read(r#""\xZ1;""#),
        Err(ParseError::InvalidCharacterEscape("\\xZ1".to_string()))
    );
    assert_eq!(
        read(r#""\xD800;""#),
        Err(ParseError::InvalidCharacterEscape("\\xD800".to_string()))
    );
    assert_eq!(
        read(r#""\x110000;""#),
        Err(ParseError::InvalidCharacterEscape("\\x110000".to_string()))
    );
}

#[test]
fn integers() {
    assert_eq!(number("0"), Number::Integer(0));
    assert_eq!(number("+17"), Number::Integer(17));
    assert_eq!(number("-17"), Number::Integer(-17));
    assert_eq!(number("007"), Number::Integer(7));
    assert_eq!(number("2147483647"), Number::Integer(i32::MAX));
    assert_eq!(number("-2147483648"), Number::Integer(i32::MIN));
}

#[test]
fn an_integer_too_large_is_read_as_a_real() {
    assert_eq!(number("2147483648"), Number::Real(inexact(2147483648.0)));
    assert_eq!(number("-2147483649"), Number::Real(inexact(-2147483649.0)));
    assert_eq!(number("99999999999"), Number::Real(inexact(99999999999.0)));
}

#[test]
fn reals() {
    assert_eq!(number("2.5"), Number::Real(inexact(2.5)));
    assert_eq!(number("-0.125"), Number::Real(inexact(-0.125)));
    assert_eq!(number("1."), Number::Real(inexact(1.0)));
}

#[test]
fn complex_numbers() {
    assert_eq!(number("2.3+5i"), Number::Complex(inexact(2.3), inexact(5.0)));
    assert_eq!(number("-1-2.5i"), Number::Complex(inexact(-1.0), inexact(-2.5)));
    assert_eq!(number("3i+4"), Number::Complex(inexact(4.0), inexact(3.0)));
    assert_eq!(
        number("2.3@4"),
        Number::Complex(inexact(2.3 * 4.0f64.cos()), inexact(2.3 * 4.0f64.sin()))
    );
    assert_eq!(number("1+i"), Number::Complex(inexact(1.0), inexact(1.0)));
    assert_eq!(number("1-i"), Number::Complex(inexact(1.0), inexact(-1.0)));
    assert_eq!(number("+i-3"), Number::Complex(inexact(-3.0), inexact(1.0)));
    assert_eq!(number("-i+3"), Number::Complex(inexact(3.0), inexact(-1.0)));
    assert_eq!(number("7i"), Number::Complex(inexact(0.0), inexact(7.0)));
    assert_eq!(number("-7.5i"), Number::Complex(inexact(0.0), inexact(-7.5)));
    assert_eq!(number("+i"), Number::Complex(inexact(0.0), inexact(1.0)));
    assert_eq!(number("-i"), Number::Complex(inexact(0.0), inexact(-1.0)));
}

#[test]
fn a_polar_literal_is_a_magnitude_and_an_angle() {
    let (re, im) = match number("2.3@4") {
        Number::Complex(re, im) => (f64::from_bits(re.bits), f64::from_bits(im.bits)),
        other => panic!("{:?}", other),
    };
    assert!(re < 0.0 && im < 0.0);
    assert!((re * re + im * im - 5.29).abs() < 1e-9);
    assert_eq!(number("2@0"), Number::Complex(inexact(2.0), inexact(0.0)));
    assert_eq!(number("-1.5@0"), Number::Complex(inexact(-1.5), inexact(-0.0)));
    let (re, im) = match number("1@-1.5") {
        Number::Complex(re, im) => (f64::from_bits(re.bits), f64::from_bits(im.bits)),
        other => panic!("{:?}", other),
    };
    assert_eq!(re, (-1.5f64).cos());
    assert_eq!(im, (-1.5f64).sin());
}

#[test]
fn texts_that_are_no_number() {
    for source in ["1+2", "1.2.3", "1i2", "1@", "1+-2i", "1++i", "1..2", "1+2ii", "+i+", "1@2@3"] {
        assert_eq!(
            read(source),
            Err(ParseError::InvalidNumber(source.to_string())),
            "{}",
            source
        );
    }
}

#[test]
fn numbers_print() {
    assert_eq!(written("12"), "12");
    assert_eq!(written("-12"), "-12");
    assert_eq!(written("-2147483648"), "-2147483648");
    assert_eq!(written("2.5"), "2.5");
    assert_eq!(written("3."), "3.0");
    assert_eq!(written("1+2i"), "1.0+2.0i");
    assert_eq!(written("1-2i"), "1.0-2.0i");
    assert_eq!(written("1+i"), "1.0+i");
    assert_eq!(written("1-i"), "1.0-i");
    assert_eq!(written("+i"), "+i");
    assert_eq!(written("-i"), "-i");
    assert_eq!(written("3i"), "3.0i");
    assert_eq!(written("2+0i"), "2.0");
}

#[test]
fn parse_messages() {
    assert_eq!(ParseError::EOF.to_string(), "unexpected end of file");
    assert_eq!(
        ParseError::MissingCLoseParenthesis.to_string(),
        "missing closing parenthesis"
    );
    assert_eq!(
        ParseError::MissingOpenParenthesis.to_string(),
        "missing opening parenthesis"
    );
    assert_eq!(
        ParseError::TooMoreObjects.to_string(),
        "only one object is allowed after a dot"
    );
    assert_eq!(
        ParseError::InvalidNumber("1+2".to_string()).to_string(),
        "invalid number: 1+2"
    );
    assert_eq!(ParseError::InvalidDot.to_string(), "dot is only allowed in the pair");
}
