use rust_scheme::data_model::{Expression, ExpressionContent, Link, Pair};
use rust_scheme::error::{
    invalid_number, invalid_symbol, validate_number_of_arguments, ApplyError, Error, EvalError,
    InvalidArgument, ParseError, TokenError,
};
use rust_scheme::evaluator::{eval_all, SpecialForm};
use rust_scheme::frame::{Frame, FrameNode};
use rust_scheme::number::{clamp, times, Comparison, Number};
use rust_scheme::reals::{Real, RealFunction, RealOp, RealUnit};
use rust_scheme::value::{
    Builtin, BuiltinProcedure, LambdaProcedure, Procedure, Thunk, Value,
};
use rust_scheme::{create_global_frame, parse, tokenize};
use std::cmp::Ordering;
use std::rc::Rc;

struct Ieee;

impl RealUnit for Ieee {
    fn arithmetic(&self, op: RealOp, a: Real, b: Real) -> Real {
        let (x, y) = (f64::from_bits(a.bits), f64::from_bits(b.bits));
        let z = match op {
            RealOp::Add => x + y,
            RealOp::Sub => x - y,
            RealOp::Mul => x * y,
            RealOp::Div => x / y,
            RealOp::Rem => x % y,
            RealOp::Pow => x.powf(y),
        };
        Real { bits: z.to_bits() }
    }

    fn function(&self, function: RealFunction, x: Real) -> Real {
        let x = f64::from_bits(x.bits);
        let z = match function {
            RealFunction::Cos => x.cos(),
            RealFunction::Sin => x.sin(),
            RealFunction::Radians => x.to_radians(),
        };
        Real { bits: z.to_bits() }
    }

    fn decode(&self, text: &str) -> Option<Real> {
        text.parse::<f64>().ok().map(|x| Real { bits: x.to_bits() })
    }

    fn print(&self, x: Real) -> String {
        let value = f64::from_bits(x.bits);
        let text = format!("{}", value);
        if value.is_finite() && !text.contains('.') {
            format!("{}.0", text)
        } else {
            text
        }
    }
}

fn of(x: f64) -> Real {
    Real { bits: x.to_bits() }
}

fn read(source: &str) -> Expression {
    parse(&mut tokenize(source).unwrap(), &Ieee).unwrap()
}

#[test]
fn the_count_of_operands_is_held_against_the_bounds() {
    assert_eq!(validate_number_of_arguments("f", 2, 2, 2), Ok(()));
    assert_eq!(
        validate_number_of_arguments("f", 2, 2, 3),
        Err(InvalidArgument::InvalidNumberOfArguments("f".to_string(), 2, 3))
    );
    assert_eq!(
        validate_number_of_arguments("f", 2, 2, 1),
        Err(InvalidArgument::InvalidNumberOfArguments("f".to_string(), 2, 1))
    );
    assert_eq!(
        validate_number_of_arguments("f", 1, usize::MAX, 0),
        Err(InvalidArgument::TooFewArguments("f".to_string(), 1, 0))
    );
    assert_eq!(validate_number_of_arguments("f", 1, usize::MAX, 100), Ok(()));
    assert_eq!(
        validate_number_of_arguments("f", 1, 3, 0),
        Err(InvalidArgument::TooFewArguments("f".to_string(), 1, 0))
    );
    assert_eq!(
        validate_number_of_arguments("f", 1, 3, 4),
        Err(InvalidArgument::TooManyArguments("f".to_string(), 3, 4))
    );
    assert_eq!(validate_number_of_arguments("f", 1, 3, 3), Ok(()));
    assert_eq!(validate_number_of_arguments("f", 0, 0, 0), Ok(()));
}

#[test]
fn faults_and_their_messages() {
    assert_eq!(
        invalid_number("x"),
        InvalidArgument::InvalidType("x".to_string(), "number".to_string())
    );
    assert_eq!(
        invalid_symbol("1"),
        InvalidArgument::InvalidType("1".to_string(), "symbol".to_string())
    );
    assert_eq!(invalid_number("x").to_string(), "x is not a number");
    assert_eq!(
        InvalidArgument::TooFewArguments("f".to_string(), 2, 1).to_string(),
        "f expects at least 2 arguments, but got 1 arguments"
    );
    assert_eq!(
        InvalidArgument::TooManyArguments("f".to_string(), 12, 130).to_string(),
        "f expects at most 12 arguments, but got 130 arguments"
    );
    assert_eq!(
        InvalidArgument::InvalidNumberOfArguments("f".to_string(), 0, 1).to_string(),
        "f expects 0 arguments, but got 1 arguments"
    );
    assert_eq!(InvalidArgument::ZeroDivisor.to_string(), "division by zero");
    assert_eq!(
        ApplyError::InvalidProcedure("1".to_string()).to_string(),
        "1 is not a procedure"
    );
    assert_eq!(
        EvalError::UnknownIdentifier("x".to_string()).to_string(),
        "unknown identifier: x"
    );
    assert_eq!(
        Error::Unimplemented("syntax-rules".to_string()).to_string(),
        "syntax-rules is not implemented"
    );
    assert_eq!(
        TokenError::InvalidStringEscape("\\q".to_string()).to_string(),
        "invalid escape in string: \\q"
    );
    assert_eq!(
        ParseError::InvalidCharacterEscape("\\x".to_string()).to_string(),
        "invalid escape in string: \\x"
    );
}

#[test]
fn faults_are_passed_up_unchanged() {
    let argument = InvalidArgument::ZeroDivisor;
    assert_eq!(
        ApplyError::from(argument.clone()),
        ApplyError::InvalidArgument(InvalidArgument::ZeroDivisor)
    );
    assert_eq!(
        EvalError::from(argument.clone()),
        EvalError::ApplyError(ApplyError::InvalidArgument(InvalidArgument::ZeroDivisor))
    );
    assert_eq!(
        EvalError::from(ApplyError::InvalidProcedure("1".to_string())),
        EvalError::ApplyError(ApplyError::InvalidProcedure("1".to_string()))
    );
    assert_eq!(
        Error::from(TokenError::MissingCloseQuote),
        Error::TokenError(TokenError::MissingCloseQuote)
    );
    assert_eq!(Error::from(ParseError::EOF), Error::ParseError(ParseError::EOF));
    assert_eq!(
        Error::from(EvalError::UnknownIdentifier("x".to_string())),
        Error::EvalError(EvalError::UnknownIdentifier("x".to_string()))
    );
    assert_eq!(
        Error::from(EvalError::Unimplemented("do".to_string())),
        Error::Unimplemented("do".to_string())
    );
    assert_eq!(
        Error::from(ParseError::Unimplemented("bytevector".to_string())),
        Error::Unimplemented("bytevector".to_string())
    );
    assert_eq!(
        Error::from(EvalError::from(argument)).to_string(),
        "invalid argument: division by zero"
    );
}

#[test]
fn an_integer_and_a_real_give_a_real() {
    let sum = Number::Integer(1).add(Number::Real(of(2.5)), &Ieee);
    assert_eq!(sum, Number::Real(of(1.0 + 2.5)));
    assert_eq!(
        Number::Real(of(0.1)).add(Number::Integer(3), &Ieee),
        Number::Real(of(0.1 + 3.0))
    );
    assert_eq!(
        Number::Integer(7).add(Number::Complex(of(1.5), of(-2.0)), &Ieee),
        Number::Complex(of(8.5), of(-2.0))
    );
    assert_eq!(
        Number::Integer(2).mul(Number::Real(of(0.25)), &Ieee),
        Number::Real(of(0.5))
    );
    assert_eq!(
        Number::Integer(1).sub(Number::Real(of(0.5)), &Ieee),
        Number::Real(of(0.5))
    );
    assert_eq!(
        Number::Integer(1).div(Number::Real(of(4.0)), &Ieee),
        Number::Real(of(0.25))
    );
    assert_eq!(
        Number::Integer(3).add(Number::Integer(4), &Ieee),
        Number::Integer(7)
    );
    assert_eq!(Number::Integer(7).div(Number::Integer(2), &Ieee), Number::Integer(3));
    assert_eq!(Number::Integer(7).quotient_by(-2), -3);
    assert_eq!(Number::Real(of(2.5)).neg(), Number::Real(of(-2.5)));
    assert_eq!(Number::Integer(5).neg(), Number::Integer(-5));
    assert_eq!(
        Number::Complex(of(1.0), of(-2.0)).neg(),
        Number::Complex(of(-1.0), of(2.0))
    );
    assert_eq!(Number::from(3), Number::Integer(3));
    assert_eq!(Number::from(of(1.5)), Number::Real(of(1.5)));
    assert_eq!(Number::from((of(1.5), of(2.0))), Number::Complex(of(1.5), of(2.0)));
}

#[test]
fn numbers_are_ordered_where_they_are_real() {
    let one = Number::Integer(1);
    let half = Number::Real(of(0.5));
    assert_eq!(one.partial_cmp(&half), Some(Ordering::Greater));
    assert_eq!(half.partial_cmp(&one), Some(Ordering::Less));
    assert_eq!(one.partial_cmp(&Number::Real(of(1.0))), Some(Ordering::Equal));
    assert_eq!(one.compare(&Number::Integer(2)), Some(Comparison::Less));
    assert_eq!(
        half.partial_cmp(&Number::Real(of(f64::NAN))),
        None
    );
    assert_eq!(
        one.partial_cmp(&Number::Complex(of(2.0), of(0.0))),
        Some(Ordering::Less)
    );
    assert_eq!(one.partial_cmp(&Number::Complex(of(2.0), of(1.0))), None);
    assert_eq!(
        Number::Complex(of(2.0), of(1.0)).partial_cmp(&Number::Complex(of(2.0), of(1.0))),
        Some(Ordering::Equal)
    );
    assert_eq!(
        Number::Complex(of(2.0), of(1.0)).partial_cmp(&Number::Complex(of(3.0), of(1.0))),
        None
    );
    assert!(one.eq(&Number::Real(of(1.0))));
    assert!(one.eq(&Number::Complex(of(1.0), of(-0.0))));
    assert!(!one.eq(&Number::Complex(of(1.0), of(0.5))));
    assert!(!Number::Real(of(f64::NAN)).eq(&Number::Real(of(f64::NAN))));
    assert!(Number::Integer(0).is_zero());
    assert!(Number::Real(of(-0.0)).is_zero());
    assert!(Number::Complex(of(0.0), of(-0.0)).is_zero());
    assert!(!Number::Complex(of(0.0), of(1.0)).is_zero());
    assert!(!Number::Real(of(f64::NAN)).is_zero());
}

#[test]
fn reals_are_compared_on_their_bits() {
    let values = [
        f64::NEG_INFINITY,
        -1e300,
        -2.5,
        -1.0,
        -5e-324,
        -0.0,
        0.0,
        5e-324,
        0.1,
        1.0,
        2.5,
        1e300,
        f64::INFINITY,
        f64::NAN,
    ];
    for x in values {
        for y in values {
            assert_eq!(of(x).is_less(&of(y)), x < y, "{} < {}", x, y);
            assert_eq!(of(x).is_same(&of(y)), x == y, "{} = {}", x, y);
        }
        assert_eq!(of(x).is_nan(), x.is_nan());
        assert_eq!(of(x).is_zero(), x == 0.0);
        assert_eq!(of(x).is_negative(), x.is_sign_negative());
        assert_eq!(of(x).negate().bits, (-x).to_bits());
        assert_eq!(of(x).abs().bits, x.abs().to_bits());
    }
    assert_eq!(Real::one(), of(1.0));
    assert_eq!(Real::minus_one(), of(-1.0));
    assert_eq!(Real::zero_value(), of(0.0));
}

#[test]
fn every_integer_is_a_real_exactly() {
    for i in [
        0,
        1,
        -1,
        2,
        -2,
        3,
        7,
        8,
        255,
        256,
        -1023,
        65535,
        65536,
        123456789,
        -987654321,
        i32::MAX,
        i32::MAX - 1,
        i32::MIN,
        i32::MIN + 1,
    ] {
        assert_eq!(Real::of_integer(i).bits, (i as f64).to_bits(), "{}", i);
    }
    let mut i = i32::MIN as i64;
    while i <= i32::MAX as i64 {
        assert_eq!(Real::of_integer(i as i32).bits, (i as f64).to_bits(), "{}", i);
        i += 2_031_647;
    }
    for shift in 0..31 {
        let power = 1i32 << shift;
        assert_eq!(Real::of_integer(power).bits, (power as f64).to_bits());
        assert_eq!(Real::of_integer(-power).bits, (-power as f64).to_bits());
        assert_eq!(Real::of_integer(power - 1).bits, ((power - 1) as f64).to_bits());
    }
}

#[test]
fn numbers_are_held_against_each_other_by_value() {
    assert!(Number::Integer(1) == Number::Real(of(1.0)));
    assert!(Number::Integer(1) != Number::Real(of(1.5)));
    assert!(Number::Real(of(0.0)) == Number::Real(of(-0.0)));
    assert!(Number::Real(of(f64::NAN)) != Number::Real(of(f64::NAN)));
    assert!(Number::Integer(2) == Number::Complex(of(2.0), of(0.0)));
    assert!(Number::Integer(1) < Number::Real(of(1.5)));
    assert!(Number::Real(of(-2.5)) < Number::Integer(-2));
    assert!(Number::Integer(3) >= Number::Real(of(3.0)));
    assert!(!(Number::Integer(3) < Number::Complex(of(4.0), of(1.0))));
    assert!(!(Number::Integer(3) > Number::Complex(of(4.0), of(1.0))));
    assert!(Number::Integer(1).identical(&Number::Integer(1)));
    assert!(!Number::Integer(1).identical(&Number::Real(of(1.0))));
    assert!(!Number::Real(of(0.0)).identical(&Number::Real(of(-0.0))));
    assert!(Number::Real(of(f64::NAN)).identical(&Number::Real(of(f64::NAN))));
    assert_eq!(Number::Integer(1).real_part(), of(1.0));
    assert_eq!(Number::Complex(of(2.5), of(1.0)).real_part(), of(2.5));
    assert_eq!(
        Number::Integer(2).ordered(&Number::Integer(1)),
        Some(Ordering::Greater)
    );
}

#[test]
fn a_number_as_an_integer_or_a_real() {
    assert_eq!(Number::Integer(5).try_into_integer(&Ieee), Ok(5));
    assert_eq!(Number::Real(of(2.9)).try_into_integer(&Ieee), Ok(2));
    assert_eq!(Number::Real(of(-2.9)).try_into_integer(&Ieee), Ok(-2));
    assert_eq!(Number::Real(of(1e20)).try_into_integer(&Ieee), Ok(i32::MAX));
    assert_eq!(Number::Real(of(-1e20)).try_into_integer(&Ieee), Ok(i32::MIN));
    assert_eq!(Number::Real(of(0.99)).try_into_integer(&Ieee), Ok(0));
    assert_eq!(Number::Real(of(f64::NAN)).try_into_integer(&Ieee), Ok(0));
    assert_eq!(
        Number::Complex(of(1.0), of(2.0)).try_into_integer(&Ieee),
        Err(InvalidArgument::InvalidType("1.0+2.0i".to_string(), "integer".to_string()))
    );
    assert_eq!(Number::Integer(5).try_into_real(&Ieee), Ok(of(5.0)));
    assert_eq!(Number::Real(of(2.5)).try_into_real(&Ieee), Ok(of(2.5)));
    assert_eq!(
        Number::Complex(of(1.0), of(2.0)).try_into_real(&Ieee),
        Err(InvalidArgument::InvalidType("1.0+2.0i".to_string(), "real".to_string()))
    );
}

#[test]
fn what_an_expression_is() {
    let number = read("5");
    assert!(number.is_number());
    assert!(!number.is_symbol());
    assert_eq!(number.as_number(), Some(&Number::Integer(5)));
    assert_eq!(number.as_string(), None);
    assert_eq!(
        number.as_content(),
        Some(&ExpressionContent::Number(Number::Integer(5)))
    );
    assert_eq!(
        *number.as_link(),
        Link::More(Rc::new(ExpressionContent::Number(Number::Integer(5))))
    );
    let symbol = read("abc");
    assert!(symbol.is_symbol());
    assert_eq!(symbol.as_symbol(), Some("abc"));
    let text = read("\"abc\"");
    assert!(text.is_string());
    assert_eq!(text.as_string(), Some("abc"));
    assert_eq!(text.as_symbol(), None);
    let truth = read("#t");
    assert!(truth.is_boolean());
    assert_eq!(truth.as_boolean(), Some(&true));
    let pair = read("(1 . 2)");
    assert!(pair.is_pair());
    assert_eq!(
        pair.as_pair(),
        Some(&Pair { car: Link::from_number(Number::Integer(1)), cdr: Link::from_number(Number::Integer(2)) })
    );
    assert_eq!(pair.as_pair().unwrap().car(), Link::from_number(Number::Integer(1)));
    assert_eq!(pair.as_pair().unwrap().cdr(), Link::from_number(Number::Integer(2)));
    let vector = read("#(1 2)");
    assert!(vector.is_vector());
    assert_eq!(vector.as_vector().unwrap().len(), 2);
    assert!(!vector.is_promise());
    assert_eq!(vector.as_promise(), None);
    let empty = read("()");
    assert_eq!(empty.as_content(), None);
    assert!(!empty.is_pair());
    let list = read("(1 2 3 . 4)");
    assert_eq!(list.content.len(), 3);
    assert_eq!(
        list.content.iter(),
        vec![
            Link::from_number(Number::Integer(1)),
            Link::from_number(Number::Integer(2)),
            Link::from_number(Number::Integer(3))
        ]
    );
    assert!(list.content.is_pair());
    assert!(list.content.as_expression_content().is_some());
    assert!(read("(a (b) #(c))").content.same_as(&read("(A (B) #(C))").content));
    assert!(!read("(a (b) #(c))").content.same_as(&read("(a (b) #(d))").content));
}

#[test]
fn what_a_value_is() {
    let number = Value::from_number(Number::Integer(5));
    assert_eq!(number.as_number(), Some(&Number::Integer(5)));
    assert_eq!(number.as_expression(), Some(&read("5")));
    assert!(number.as_procedure().is_none());
    assert!(number.as_thunk().is_none());
    assert!(number.is_true());
    assert!(!Value::from_boolean(false).is_true());
    assert!(Value::Void.is_true());
    assert_eq!(Value::Void.as_expression(), None);
    let procedure = Value::from_builtin(Builtin::Car);
    assert_eq!(
        procedure.as_procedure(),
        Some(&Procedure::Builtin(BuiltinProcedure { function: Builtin::Car }))
    );
    assert_eq!(BuiltinProcedure { function: Builtin::Car }.name(), "car");
    assert_eq!(BuiltinProcedure { function: Builtin::Car }.to_string(), "#[car]");
    let thunk = Value::Thunk(Thunk { content: read("(f)").content, frame: 3 });
    assert_eq!(thunk.as_thunk().unwrap().frame, 3);
    assert_eq!(thunk.duplicate(), thunk);
    assert!(thunk.same_as(&thunk.duplicate()));
    assert!(!thunk.same_as(&number));
    let text = Value::from_link(Link::from_string("s".to_string()));
    assert_eq!(text.as_string(), Some("s"));
    assert_eq!(Value::from_link(Link::from_symbol("s".to_string())).as_symbol(), Some("s"));
    assert_eq!(Value::from_boolean(true).as_boolean(), Some(&true));
    assert!(Value::from_link(read("(1)").content).as_pair().is_some());
    assert!(Value::from_link(read("#(1)").content).as_vector().is_some());
    assert!(Value::from_link(read("#(1)").content).as_promise().is_none());
}

#[test]
fn procedures_are_applied() {
    let mut frame = create_global_frame();
    let two_three = vec![
        Value::from_number(Number::Integer(2)),
        Value::from_number(Number::Integer(3)),
    ];
    let add = BuiltinProcedure { function: Builtin::Add };
    assert_eq!(
        add.apply(two_three.clone(), &mut frame, &Ieee),
        Ok(Value::from_number(Number::Integer(5)))
    );
    let procedure = Procedure::Builtin(BuiltinProcedure { function: Builtin::Mul });
    assert_eq!(
        procedure.apply(two_three.clone(), &mut frame, &Ieee),
        Ok(Value::from_number(Number::Integer(6)))
    );
    let lambda = LambdaProcedure {
        name: Some("second".to_string()),
        formals: vec!["a".to_string(), "b".to_string()],
        rest: None,
        body: read("(b)").content,
        frame: 0,
    };
    assert_eq!(
        lambda.apply(two_three.clone(), &mut frame, &Ieee),
        Ok(Value::from_number(Number::Integer(3)))
    );
    assert_eq!(frame.size(), 2);
    assert_eq!(lambda.to_string(), "#[lambda: second]");
    assert_eq!(lambda.duplicate(), lambda);
    assert_eq!(
        lambda.apply(vec![], &mut frame, &Ieee),
        Err(EvalError::ApplyError(ApplyError::InvalidArgument(
            InvalidArgument::InvalidNumberOfArguments("second".to_string(), 2, 0)
        )))
    );
    assert_eq!(
        Procedure::Lambda(lambda).apply(two_three, &mut frame, &Ieee),
        Ok(Value::from_number(Number::Integer(3)))
    );
}

#[test]
fn forms_are_applied_to_their_unevaluated_operands() {
    let mut frame = create_global_frame();
    assert_eq!(
        SpecialForm::Quote.apply(read("((+ 1 2))").content, &mut frame, &Ieee),
        Ok(Value::Expression(read("(+ 1 2)")))
    );
    assert_eq!(
        SpecialForm::If.apply(read("(#f 1 (+ 1 2))").content, &mut frame, &Ieee),
        Ok(Value::from_number(Number::Integer(3)))
    );
    assert_eq!(
        SpecialForm::Define.apply(read("(x 5)").content, &mut frame, &Ieee),
        Ok(Value::Void)
    );
    assert_eq!(frame.lookup("x"), Some(&Value::from_number(Number::Integer(5))));
    assert_eq!(
        SpecialForm::SyntaxRules.apply(read("()").content, &mut frame, &Ieee),
        Err(EvalError::Unimplemented("syntax-rules".to_string()))
    );
    assert_eq!(SpecialForm::from_name("let*"), Some(SpecialForm::LetStar));
    assert_eq!(SpecialForm::from_name("set!"), Some(SpecialForm::Assign));
    assert_eq!(SpecialForm::from_name("car"), None);
    assert_eq!(SpecialForm::LetRecSyntax.name(), "letrec-syntax");
    for name in [
        "and", "begin", "case", "cond", "define", "delay", "do", "if", "lambda", "let", "let*",
        "letrec", "letrec-syntax", "let-syntax", "or", "quasiquote", "quote", "set!",
        "syntax-rules", "unless", "unquote", "unquote-splicing", "when",
    ] {
        assert_eq!(SpecialForm::from_name(name).unwrap().name(), name);
    }
}

#[test]
fn a_body_is_evaluated_in_order() {
    let mut frame = create_global_frame();
    assert_eq!(
        eval_all(read("((define a 1) (define b (+ a 1)) b)").content, &mut frame, &Ieee),
        Ok(Value::from_number(Number::Integer(2)))
    );
    assert_eq!(eval_all(read("()").content, &mut frame, &Ieee), Ok(Value::Void));
    assert_eq!(
        eval_all(read("(1 (car a))").content, &mut frame, &Ieee),
        Ok(Value::Thunk(Thunk { content: read("(car a)").content, frame: 0 }))
    );
}

#[test]
fn one_frame_of_the_store() {
    let mut node = FrameNode::new(Some(3));
    assert_eq!(node.parent(), Some(3));
    assert_eq!(node.lookup("x"), None);
    node.define("x", Value::from_number(Number::Integer(1)));
    node.define("y", Value::from_number(Number::Integer(2)));
    node.define("x", Value::from_number(Number::Integer(3)));
    assert_eq!(node.lookup("x"), Some(&Value::from_number(Number::Integer(3))));
    assert_eq!(node.lookup("y"), Some(&Value::from_number(Number::Integer(2))));
    assert_eq!(node.duplicate(), node);
    let mut frame = Frame::new();
    frame.define_in(7, "lost", Value::Void);
    assert_eq!(frame.lookup_from(7, "lost"), None);
    assert_eq!(frame.size(), 1);
    let child = frame.push_scope(0);
    assert_eq!(child, 1);
    frame.enter(child);
    assert_eq!(frame.current(), 1);
    assert_eq!(frame.duplicate(), frame);
}

#[test]
fn a_real_is_cut_as_the_machine_cuts_it() {
    for x in [
        0.0,
        -0.0,
        0.5,
        -0.5,
        1.0,
        -1.0,
        1.999999,
        2.5,
        -2.5,
        1234567.875,
        -1234567.875,
        2147483647.0,
        2147483647.5,
        2147483648.0,
        -2147483648.0,
        -2147483648.5,
        -2147483649.0,
        4294967296.0,
        1e300,
        -1e300,
        5e-324,
        f64::INFINITY,
        f64::NEG_INFINITY,
        f64::NAN,
    ] {
        assert_eq!(of(x).to_integer(), x as i32, "{x}");
    }
}

#[test]
fn an_integer_made_a_real_is_cut_to_itself() {
    for i in [0, 1, -1, 2, 3, 255, -256, 65_537, 1_000_000_007, i32::MAX, i32::MIN, i32::MIN + 1] {
        assert_eq!(Real::of_integer(i).to_integer(), i);
        assert_eq!(Real::of_integer(i).bits, (i as f64).to_bits());
    }
}

#[test]
fn integer_arithmetic_is_held_to_the_machine_range() {
    assert_eq!(clamp(0), 0);
    assert_eq!(clamp(2_147_483_647), i32::MAX);
    assert_eq!(clamp(2_147_483_648), i32::MAX);
    assert_eq!(clamp(-2_147_483_648), i32::MIN);
    assert_eq!(clamp(-2_147_483_649), i32::MIN);
    assert_eq!(clamp(i64::MAX), i32::MAX);
    assert_eq!(clamp(i64::MIN), i32::MIN);
    for (a, b) in [
        (0, 0),
        (3, -7),
        (46_340, 46_340),
        (46_341, 46_341),
        (i32::MAX, 2),
        (i32::MAX, -1),
        (i32::MIN, -1),
        (i32::MIN, i32::MIN),
        (i32::MIN, i32::MAX),
        (-65_536, 32_768),
        (-65_536, 32_769),
    ] {
        assert_eq!(times(a, b), a.saturating_mul(b), "{a} * {b}");
        let sum = Number::Integer(a).add(Number::Integer(b), &Ieee);
        assert_eq!(sum, Number::Integer(a.saturating_add(b)), "{a} + {b}");
        let difference = Number::Integer(a).sub(Number::Integer(b), &Ieee);
        assert_eq!(difference, Number::Integer(a.saturating_sub(b)), "{a} - {b}");
        let product = Number::Integer(a).mul(Number::Integer(b), &Ieee);
        assert_eq!(product, Number::Integer(a.saturating_mul(b)), "{a} * {b}");
        if b != 0 {
            let quotient = Number::Integer(a).div(Number::Integer(b), &Ieee);
            assert_eq!(quotient, Number::Integer(a.saturating_div(b)), "{a} / {b}");
        }
        assert_eq!(Number::Integer(a).neg(), Number::Integer(a.saturating_neg()));
    }
}
