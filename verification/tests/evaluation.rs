use rust_scheme::data_model::{Expression, ExpressionContent, Link, Pair, Promise};
use rust_scheme::error::{ApplyError, Error, EvalError, InvalidArgument};
use rust_scheme::evaluator::SpecialForm;
use rust_scheme::frame::{Frame, FrameNode};
use rust_scheme::number::Number;
use rust_scheme::reals::{Real, RealFunction, RealOp, RealUnit};
use rust_scheme::value::{BuiltinProcedure, LambdaProcedure, Procedure, Thunk, Value};
use rust_scheme::{create_global_frame, eval, interpret, parse, tokenize};
use std::rc::Rc;

struct Ieee;

impl RealUnit for Ieee {
    fn arithmetic(&self, op: RealOp, a: Real, b: Real) -> Real {
        let (x, y) = (f64::from_bits(a.bits), f64::from_bits(b.bits));
        let z = match op {
            RealOp::Add => x + y,
            RealOp::Sub => x - y,
            RealOp::Mul => x * y,
            RealOp::Div => x / y,
            RealOp::Rem => x % y,
            RealOp::Pow => x.powf(y),
        };
        Real { bits: z.to_bits() }
    }

    fn function(&self, function: RealFunction, x: Real) -> Real {
        let x = f64::from_bits(x.bits);
        let z = match function {
            RealFunction::Cos => x.cos(),
            RealFunction::Sin => x.sin(),
            RealFunction::Radians => x.to_radians(),
        };
        Real { bits: z.to_bits() }
    }

    fn decode(&self, text: &str) -> Option<Real> {
        text.parse::<f64>().ok().map(|x| Real { bits: x.to_bits() })
    }

    fn print(&self, x: Real) -> String {
        let value = f64::from_bits(x.bits);
        let text = format!("{}", value);
        if value.is_finite() && !text.contains('.') {
            format!("{}.0", text)
        } else {
            text
        }
    }
}

fn line(frame: &mut Frame, source: &str) -> String {
    match interpret(source, frame, &Ieee) {
        Ok(value) => value.to_string(&Ieee),
        Err(error) => format!("Error: {}", error.to_string()),
    }
}

fn run(source: &str) -> String {
    line(&mut create_global_frame(), source)
}

fn fault(source: &str) -> Error {
    interpret(source, &mut create_global_frame(), &Ieee).unwrap_err()
}

fn argument(source: &str) -> InvalidArgument {
    match fault(source) {
        Error::EvalError(EvalError::ApplyError(ApplyError::InvalidArgument(argument))) => argument,
        other => panic!("{:?}", other),
    }
}

#[test]
fn test_eval() {
    let mut frame = create_global_frame();
    let expression = parse(&mut tokenize("(+ 1 2)").unwrap(), &Ieee).unwrap();
    let result = eval(expression, &mut frame, false, &Ieee).unwrap();
    assert_eq!(
        result,
        Value::Expression(Expression {
            content: Link::More(Rc::new(ExpressionContent::Number(Number::Integer(3))))
        })
    );
}

#[test]
fn data_model_test_mem_size() {
    println!("size of Expression: {}", std::mem::size_of::<Expression>());
    println!("size of Link: {}", std::mem::size_of::<Link>());
    println!(
        "size of RcExpressionContent: {}",
        std::mem::size_of::<Rc<ExpressionContent>>()
    );
    println!(
        "size of ExpressionContent: {}",
        std::mem::size_of::<ExpressionContent>()
    );
    println!("size of Pair: {}", std::mem::size_of::<Pair>());
    println!("size of Promise: {}", std::mem::size_of::<Promise>());
    println!("size of Thunk: {}", std::mem::size_of::<Thunk>());
    println!("size of Frame: {}", std::mem::size_of::<Frame>());
    println!("size of FrameLink: {}", std::mem::size_of::<usize>());
    println!("size of FrameNode: {}", std::mem::size_of::<FrameNode>());
    println!(
        "size of SpecialForm: {}",
        std::mem::size_of::<SpecialForm>()
    );
    println!("size of Procedure: {}", std::mem::size_of::<Procedure>());
    println!(
        "size of BuiltinProcedure: {}",
        std::mem::size_of::<BuiltinProcedure>()
    );
    println!(
        "size of LambdaProcedure: {}",
        std::mem::size_of::<LambdaProcedure>()
    );
    println!("size of Value: {}", std::mem::size_of::<Value>());
}

#[test]
fn a_session_without_inexact_numbers_needs_no_arithmetic() {
    let mut frame = create_global_frame();
    let exact = rust_scheme::reals::Exact;
    let value = interpret("(* (+ 1 2) (- 7 3))", &mut frame, &exact).unwrap();
    assert_eq!(value.to_string(&exact), "12");
    assert_eq!(
        interpret("(+ 1 2.5)", &mut frame, &exact),
        Err(Error::ParseError(rust_scheme::error::ParseError::InvalidNumber("2.5".to_string())))
    );
}

#[test]
fn simple_sessions() {
    assert_eq!(run("(+ 1 2)"), "3");
    assert_eq!(run("(+ 1 2.5)"), "3.5");
    let mut frame = create_global_frame();
    assert_eq!(line(&mut frame, "(define x 5)"), "");
    assert_eq!(line(&mut frame, "(+ x x)"), "10");
    assert_eq!(line(&mut frame, "(define (sq n) (* n n))"), "");
    assert_eq!(line(&mut frame, "(sq 7)"), "49");
    assert_eq!(run("((lambda (x y) (+ x y)) 3 4)"), "7");
    assert_eq!(run("(if (= 0 0) 'yes 'no)"), "yes");
    assert_eq!(run("(car '(1 2 3))"), "1");
    assert_eq!(run("(cdr '(1 2 3))"), "(2 3)");
    assert_eq!(run("'(a b . c)"), "(a b . c)");
    assert_eq!(run("(/ 1 0)"), "Error: invalid argument: division by zero");
    assert_eq!(run("foo"), "Error: unknown identifier: foo");
    assert_eq!(run("(1 2 3)"), "Error: 1 is not a procedure");
}

#[test]
fn every_kind_of_zero_is_no_divisor() {
    assert_eq!(argument("(/ 1 0)"), InvalidArgument::ZeroDivisor);
    assert_eq!(argument("(/ 1.0 0.0)"), InvalidArgument::ZeroDivisor);
    assert_eq!(argument("(/ 1 0+0i)"), InvalidArgument::ZeroDivisor);
    assert_eq!(argument("(/ 1 -0.0)"), InvalidArgument::ZeroDivisor);
    assert_eq!(argument("(/ 0)"), InvalidArgument::ZeroDivisor);
    assert_eq!(argument("(/ 0.0)"), InvalidArgument::ZeroDivisor);
    assert_eq!(argument("(/ 8 2 0 'x)"), InvalidArgument::ZeroDivisor);
}

#[test]
fn and_or_stop_at_the_deciding_operand() {
    assert_eq!(run("(and #f (error))"), "#f");
    assert_eq!(run("(or #t (error))"), "#t");
    assert_eq!(run("(and 1 (error))"), "Error: unknown identifier: error");
    assert_eq!(run("(or #f (error))"), "Error: unknown identifier: error");
    assert_eq!(run("(and)"), "#t");
    assert_eq!(run("(or)"), "#f");
    assert_eq!(run("(and 1 2 3)"), "3");
    assert_eq!(run("(and 1 #f 3)"), "#f");
    assert_eq!(run("(or #f 2 3)"), "2");
    assert_eq!(run("(or #f #f)"), "#f");
}

#[test]
fn a_procedure_sees_the_frame_it_was_made_in() {
    let mut frame = create_global_frame();
    line(&mut frame, "(define x 1)");
    line(&mut frame, "(define (get) x)");
    line(&mut frame, "(define (shadow x) (get))");
    assert_eq!(line(&mut frame, "(shadow 2)"), "1");
    line(&mut frame, "(define (make n) (lambda (m) (+ n m)))");
    line(&mut frame, "(define add3 (make 3))");
    line(&mut frame, "(define n 100)");
    assert_eq!(line(&mut frame, "(add3 4)"), "7");
    assert_eq!(line(&mut frame, "((make 10) 1)"), "11");
    line(&mut frame, "(define (reader) later)");
    assert_eq!(line(&mut frame, "(let ((later 5)) (reader))"), "Error: unknown identifier: later");
    line(&mut frame, "(define later 6)");
    assert_eq!(line(&mut frame, "(reader)"), "6");
}

#[test]
fn a_loop_by_tail_calls_runs_in_constant_depth() {
    let mut frame = create_global_frame();
    line(
        &mut frame,
        "(define (sum n acc) (if (= n 0) acc (sum (- n 1) (+ acc n))))",
    );
    assert_eq!(line(&mut frame, "(sum 100000 0.0)"), "5000050000.0");
    assert_eq!(line(&mut frame, "(sum 1000 0)"), "500500");
    assert_eq!(line(&mut frame, "(sum 100000 0)"), "2147483647");
    line(
        &mut frame,
        "(define (count n) (cond ((= n 0) 'done) (else (count (- n 1)))))",
    );
    assert_eq!(line(&mut frame, "(count 50000)"), "done");
}

#[test]
fn the_limits_end_a_runaway_evaluation() {
    let mut frame = create_global_frame();
    frame.set_limits(64, 1000);
    line(&mut frame, "(define (forever) (forever))");
    assert_eq!(
        interpret("(forever)", &mut frame, &Ieee),
        Err(Error::EvalError(EvalError::BudgetExhausted))
    );
    line(&mut frame, "(define (deep n) (+ 1 (deep n)))");
    assert_eq!(
        interpret("(deep 1)", &mut frame, &Ieee),
        Err(Error::EvalError(EvalError::BudgetExhausted))
    );
    assert_eq!(line(&mut frame, "(+ 1 2)"), "3");
    assert_eq!(
        EvalError::BudgetExhausted.to_string(),
        "evaluation budget exhausted"
    );
}

#[test]
fn nesting_is_limited_before_the_stack_is() {
    let mut frame = create_global_frame();
    line(&mut frame, "(define (sum n) (if (= n 0) 0 (+ n (sum (- n 1)))))");
    assert_eq!(line(&mut frame, "(sum 200)"), "20100");
    assert_eq!(line(&mut frame, "(sum 300)"), "45150");
    assert_eq!(line(&mut frame, "(sum 900)"), "405450");
    assert_eq!(
        interpret("(sum 1100)", &mut frame, &Ieee),
        Err(Error::EvalError(EvalError::BudgetExhausted))
    );
    assert_eq!(frame.depth(), 1024);
    assert_eq!(frame.rounds(), 10_000_000);
}

#[test]
fn a_doubly_recursive_procedure() {
    let mut frame = create_global_frame();
    line(&mut frame, "(define (fib n) (if (< n 2) n (+ (fib (- n 1)) (fib (- n 2)))))");
    assert_eq!(line(&mut frame, "(fib 15)"), "610");
    assert_eq!(line(&mut frame, "(map fib '(1 2 3 4 5 6 7 8 9 10))"), "(1 1 2 3 5 8 13 21 34 55)");
}

#[test]
fn integers_saturate() {
    assert_eq!(run("(+ 2147483647 1)"), "2147483647");
    assert_eq!(run("(+ 2147483647 2147483647 2147483647)"), "2147483647");
    assert_eq!(run("(- -2147483648 1)"), "-2147483648");
    assert_eq!(run("(* 65536 65536)"), "2147483647");
    assert_eq!(run("(* -65536 65536)"), "-2147483648");
    assert_eq!(run("(* 46341 46341)"), "2147483647");
    assert_eq!(run("(* 46340 46340)"), "2147395600");
    assert_eq!(run("(- -2147483648)"), "2147483647");
    assert_eq!(run("(/ -2147483648 -1)"), "2147483647");
    assert_eq!(run("(+ 2147483647 -1)"), "2147483646");
}

#[test]
fn integer_division_rounds_toward_zero() {
    assert_eq!(run("(/ 7 2)"), "3");
    assert_eq!(run("(/ -7 2)"), "-3");
    assert_eq!(run("(/ 7 -2)"), "-3");
    assert_eq!(run("(/ -7 -2)"), "3");
    assert_eq!(run("(/ 6 3)"), "2");
    assert_eq!(run("(/ 100 5 2)"), "10");
    assert_eq!(run("(/ 1)"), "1");
    assert_eq!(run("(/ 4)"), "0");
}

#[test]
fn arithmetic_promotes_to_the_widest_operand() {
    assert_eq!(run("(+)"), "0");
    assert_eq!(run("(*)"), "1");
    assert_eq!(run("(+ 1 2 3 4)"), "10");
    assert_eq!(run("(* 2 3 4)"), "24");
    assert_eq!(run("(- 10 1 2)"), "7");
    assert_eq!(run("(- 5)"), "-5");
    assert_eq!(run("(- 2.5)"), "-2.5");
    assert_eq!(run("(+ 1 0.5)"), "1.5");
    assert_eq!(run("(+ 0.5 1)"), "1.5");
    assert_eq!(run("(* 2 2.5)"), "5.0");
    assert_eq!(run("(- 1 0.25)"), "0.75");
    assert_eq!(run("(/ 1 4.0)"), "0.25");
    assert_eq!(run("(/ 2.0)"), "0.5");
    assert_eq!(run("(+ 1 1+2i)"), "2.0+2.0i");
    assert_eq!(run("(+ 1+2i 3-4i)"), "4.0-2.0i");
    assert_eq!(run("(- 1 2+3i)"), "-1.0-3.0i");
    assert_eq!(run("(- 2+3i 1)"), "1.0+3.0i");
    assert_eq!(run("(* 1+2i 3+4i)"), "-5.0+10.0i");
    assert_eq!(run("(* 2 1+2i)"), "2.0+4.0i");
    assert_eq!(run("(/ 4+2i 2)"), "2.0+i");
    assert_eq!(run("(/ 1+2i 3+4i)"), "0.44+0.08i");
    assert_eq!(run("(/ 2 1+i)"), "1.0-i");
    assert_eq!(run("(- 1+2i)"), "-1.0-2.0i");
}

#[test]
fn comparisons_run_along_the_chain() {
    assert_eq!(run("(= 1 1)"), "#t");
    assert_eq!(run("(= 1 1.0)"), "#t");
    assert_eq!(run("(= 1 1+0i)"), "#t");
    assert_eq!(run("(= 1 1+i)"), "#f");
    assert_eq!(run("(= 2 2 2 3)"), "#f");
    assert_eq!(run("(= 0.0 -0.0)"), "#t");
    assert_eq!(run("(< 1 2 3 4)"), "#t");
    assert_eq!(run("(< 1 3 2 4)"), "#f");
    assert_eq!(run("(< 1 2 2)"), "#f");
    assert_eq!(run("(<= 1 2 2)"), "#t");
    assert_eq!(run("(> 3 2 1)"), "#t");
    assert_eq!(run("(> 3 3)"), "#f");
    assert_eq!(run("(>= 3 3 1)"), "#t");
    assert_eq!(run("(< -1.5 0 2.5)"), "#t");
    assert_eq!(run("(< -2 -1.5)"), "#t");
    assert_eq!(run("(< 1 2+0i)"), "#t");
    assert_eq!(run("(< 1 2+i)"), "#f");
    assert_eq!(run("(> 1 2+i)"), "#f");
    assert_eq!(run("(< 2 1 'x)"), "#f");
}

#[test]
fn faults_of_the_operands() {
    assert_eq!(
        argument("(+ 1 'a)"),
        InvalidArgument::InvalidType("a".to_string(), "number".to_string())
    );
    assert_eq!(run("(+ 1 \"a\")"), "Error: invalid argument: \"a\" is not a number");
    assert_eq!(
        argument("(-)"),
        InvalidArgument::TooFewArguments("#[-]".to_string(), 1, 0)
    );
    assert_eq!(
        run("(< 1)"),
        "Error: invalid argument: #[<] expects at least 2 arguments, but got 1 arguments"
    );
    assert_eq!(
        argument("(car 1 2)"),
        InvalidArgument::InvalidNumberOfArguments("#[car]".to_string(), 1, 2)
    );
    assert_eq!(
        run("(car 1 2)"),
        "Error: invalid argument: #[car] expects 1 arguments, but got 2 arguments"
    );
    assert_eq!(
        argument("(if 1 2 3 4)"),
        InvalidArgument::TooManyArguments("if".to_string(), 3, 4)
    );
    assert_eq!(
        run("(if 1 2 3 4)"),
        "Error: invalid argument: if expects at most 3 arguments, but got 4 arguments"
    );
    assert_eq!(
        argument("(car 5)"),
        InvalidArgument::InvalidType("5".to_string(), "pair".to_string())
    );
    assert_eq!(run("(< 1 car)"), "Error: invalid argument: #[car] is not a number");
    assert_eq!(
        fault("(\"f\" 1)"),
        Error::EvalError(EvalError::ApplyError(ApplyError::InvalidProcedure(
            "\"f\"".to_string()
        )))
    );
}

#[test]
fn values_are_their_own_value() {
    assert_eq!(run("12"), "12");
    assert_eq!(run("\"text\""), "\"text\"");
    assert_eq!(run("#t"), "#t");
    assert_eq!(run("#(1 a)"), "#(1 a)");
    assert_eq!(run("()"), "()");
    assert_eq!(run("car"), "#[car]");
    assert_eq!(run("(lambda (x) x)"), "#[lambda]");
    let mut frame = create_global_frame();
    line(&mut frame, "(define (sq n) (* n n))");
    assert_eq!(line(&mut frame, "sq"), "#[lambda: sq]");
}

#[test]
fn quote_and_if() {
    assert_eq!(run("(quote (1 2))"), "(1 2)");
    assert_eq!(run("(quote x)"), "x");
    assert_eq!(run("''x"), "(quote x)");
    assert_eq!(run("(if #t 1 2)"), "1");
    assert_eq!(run("(if #f 1 2)"), "2");
    assert_eq!(run("(if 0 1 2)"), "1");
    assert_eq!(run("(if () 1 2)"), "1");
    assert_eq!(run("(if #f 1)"), "");
    assert_eq!(run("(if #t 1 (error))"), "1");
    assert_eq!(
        argument("(quote)"),
        InvalidArgument::InvalidNumberOfArguments("quote".to_string(), 1, 0)
    );
}

#[test]
fn define_binds_in_the_current_frame_and_set_in_the_nearest() {
    let mut frame = create_global_frame();
    line(&mut frame, "(define x 1)");
    line(&mut frame, "(define (local) (define x 2) x)");
    assert_eq!(line(&mut frame, "(local)"), "2");
    assert_eq!(line(&mut frame, "x"), "1");
    line(&mut frame, "(define (change) (set! x 3) x)");
    assert_eq!(line(&mut frame, "(change)"), "3");
    assert_eq!(line(&mut frame, "x"), "3");
    assert_eq!(line(&mut frame, "(set! y 1)"), "Error: unknown identifier: y");
    assert_eq!(line(&mut frame, "(define x 4)"), "");
    assert_eq!(line(&mut frame, "x"), "4");
    assert_eq!(
        line(&mut frame, "(define 1 2)"),
        "Error: invalid argument: 1 is not a symbol or pair"
    );
    assert_eq!(
        line(&mut frame, "(define (1 a) 2)"),
        "Error: invalid argument: 1 is not a symbol"
    );
    assert_eq!(
        line(&mut frame, "(set! 1 2)"),
        "Error: invalid argument: 1 is not a symbol"
    );
}

#[test]
fn what_was_defined_before_a_fault_stays() {
    let mut frame = create_global_frame();
    assert_eq!(
        line(&mut frame, "(begin (define kept 1) (car 2))"),
        "Error: invalid argument: 2 is not a pair"
    );
    assert_eq!(line(&mut frame, "kept"), "1");
}

#[test]
fn begin_gives_the_last_value() {
    assert_eq!(run("(begin)"), "");
    assert_eq!(run("(begin 1 2 3)"), "3");
    assert_eq!(run("(begin (define a 1) (+ a 1))"), "2");
}

#[test]
fn formals_and_operands() {
    assert_eq!(run("((lambda () 5))"), "5");
    assert_eq!(run("((lambda (a b) (- a b)) 5 3)"), "2");
    assert_eq!(run("((lambda args args) 1 2 3)"), "(1 2 3)");
    assert_eq!(run("((lambda args args))"), "()");
    assert_eq!(run("((lambda (a . more) more) 1 2 3)"), "(2 3)");
    assert_eq!(run("((lambda (a . more) a) 1)"), "1");
    assert_eq!(
        argument("((lambda (a b) a) 1)"),
        InvalidArgument::InvalidNumberOfArguments("#[lambda]".to_string(), 2, 1)
    );
    assert_eq!(
        argument("((lambda (a . more) a))"),
        InvalidArgument::TooFewArguments("#[lambda]".to_string(), 1, 0)
    );
    assert_eq!(
        argument("((lambda (a 1) a) 1 2)"),
        InvalidArgument::InvalidType("1".to_string(), "symbol".to_string())
    );
    let mut frame = create_global_frame();
    line(&mut frame, "(define (two a b) a)");
    assert_eq!(
        line(&mut frame, "(two 1 2 3)"),
        "Error: invalid argument: two expects 2 arguments, but got 3 arguments"
    );
}

#[test]
fn operands_are_evaluated_from_left_to_right() {
    let mut frame = create_global_frame();
    line(&mut frame, "(define n 0)");
    line(&mut frame, "(define (next) (set! n (+ n 1)) n)");
    assert_eq!(line(&mut frame, "(list (next) (next) (next))"), "(1 2 3)");
    assert_eq!(line(&mut frame, "(- (next) (next))"), "-1");
}

#[test]
fn the_three_lets() {
    assert_eq!(run("(let ((a 1) (b 2)) (+ a b))"), "3");
    assert_eq!(run("(let () 5)"), "5");
    assert_eq!(run("(let* ((a 1) (b (+ a 1))) (* a b))"), "2");
    assert_eq!(
        run("(let ((a 1) (b (+ a 1))) b)"),
        "Error: unknown identifier: a"
    );
    assert_eq!(
        run("(letrec ((even? (lambda (n) (if (= n 0) #t (odd? (- n 1))))) (odd? (lambda (n) (if (= n 0) #f (even? (- n 1)))))) (even? 10))"),
        "#t"
    );
    assert_eq!(
        run("(letrec ((a b) (b 1)) a)"),
        "Error: unknown identifier: b"
    );
    let mut frame = create_global_frame();
    line(&mut frame, "(define b 7)");
    assert_eq!(
        line(&mut frame, "(letrec ((a b) (b 1)) a)"),
        "Error: unknown identifier: b"
    );
    assert_eq!(line(&mut frame, "(let* ((a b) (b 1)) (+ a b))"), "8");
    assert_eq!(line(&mut frame, "(letrec ((a 1) (c (+ a b))) c)"), "8");
    assert_eq!(
        line(&mut frame, "(letrec ((a 1) (oops)) a)"),
        "Error: invalid argument: (oops) is not a binding"
    );
    line(&mut frame, "(define a 10)");
    assert_eq!(line(&mut frame, "(let ((a 1)) a)"), "1");
    assert_eq!(line(&mut frame, "a"), "10");
    assert_eq!(
        line(&mut frame, "(let ((a)) a)"),
        "Error: invalid argument: (a) is not a binding"
    );
}

#[test]
fn cond_when_unless() {
    assert_eq!(run("(cond ((= 1 2) 'a) ((= 1 1) 'b) (else 'c))"), "b");
    assert_eq!(run("(cond ((= 1 2) 'a) (else 'c))"), "c");
    assert_eq!(run("(cond ((= 1 2) 'a))"), "");
    assert_eq!(run("(cond (5))"), "5");
    assert_eq!(run("(cond (#t 1 2 3))"), "3");
    assert_eq!(run("(when (= 1 1) 1 2)"), "2");
    assert_eq!(run("(when (= 1 2) 1 2)"), "");
    assert_eq!(run("(unless (= 1 2) 1 2)"), "2");
    assert_eq!(run("(unless (= 1 1) 1 2)"), "");
}

#[test]
fn delay_keeps_the_expression() {
    assert_eq!(run("(delay (car 1))"), "#[promise]");
}

#[test]
fn forms_without_a_rule_say_so() {
    for form in [
        "unquote",
        "unquote-splicing",
        "syntax-rules",
        "let-syntax",
        "letrec-syntax",
    ] {
        assert_eq!(
            fault(&format!("({} 1)", form)),
            Error::Unimplemented(form.to_string())
        );
        assert_eq!(
            run(&format!("({} 1)", form)),
            format!("Error: {} is not implemented", form)
        );
    }
    assert_eq!(run(",x"), "Error: unquote is not implemented");
}

#[test]
fn case_chooses_by_the_key() {
    assert_eq!(run("(case (+ 1 1) ((1) 'one) ((2 3) 'few) (else 'many))"), "few");
    assert_eq!(run("(case 5 ((1) 'one) ((2 3) 'few) (else 'many))"), "many");
    assert_eq!(run("(case 5 ((1) 'one))"), "");
    assert_eq!(run("(case 'b ((a) 1) ((b) 2 3))"), "3");
    assert_eq!(run("(case \"x\" ((\"x\") 'same))"), "same");
    assert_eq!(run("(case car ((car) 'never) (else 'other))"), "other");
    assert_eq!(run("(case 1 ())"), "Error: invalid argument: () is not a clause");
    assert_eq!(
        run("(case)"),
        "Error: invalid argument: case expects at least 1 arguments, but got 0 arguments"
    );
}

#[test]
fn do_makes_its_rounds() {
    assert_eq!(run("(do ((i 0 (+ i 1))) ((= i 5) i))"), "5");
    assert_eq!(
        run("(do ((i 0 (+ i 1)) (acc '() (cons i acc))) ((= i 3) acc))"),
        "(2 1 0)"
    );
    assert_eq!(run("(do ((i 0 (+ i 1)) (j 10)) ((= i 2) (+ i j)))"), "12");
    assert_eq!(run("(do ((i 0 (+ i 1))) ((= i 2)))"), "");
    let mut frame = create_global_frame();
    line(&mut frame, "(define total 0)");
    assert_eq!(
        line(&mut frame, "(do ((i 1 (+ i 1))) ((> i 4) total) (set! total (+ total i)))"),
        "10"
    );
    assert_eq!(line(&mut frame, "i"), "Error: unknown identifier: i");
    frame.set_limits(64, 100);
    assert_eq!(
        interpret("(do ((i 0 (+ i 1))) (#f))", &mut frame, &Ieee),
        Err(Error::EvalError(EvalError::BudgetExhausted))
    );
    assert_eq!(
        line(&mut frame, "(do ((i)) (#t))"),
        "Error: invalid argument: (i) is not a binding"
    );
    assert_eq!(
        line(&mut frame, "(do () ())"),
        "Error: invalid argument: () is not a clause"
    );
}

#[test]
fn quasiquote_builds_from_a_template() {
    assert_eq!(run("`(1 2)"), "(1 2)");
    assert_eq!(run("`x"), "x");
    assert_eq!(run("`(1 ,(+ 1 1) 3)"), "(1 2 3)");
    assert_eq!(run("`(1 ,@(list 2 3) 4)"), "(1 2 3 4)");
    assert_eq!(run("`(1 ,@'() 2)"), "(1 2)");
    assert_eq!(run("`(a . ,(+ 1 2))"), "(a . 3)");
    assert_eq!(run("`((a ,(* 2 3)) #(b ,(+ 1 1)))"), "((a 6) #(b 2))");
    assert_eq!(run("`,(+ 1 2)"), "3");
    assert_eq!(run("(quasiquote (x (unquote (car '(y z)))))"), "(x y)");
    assert_eq!(
        run("`(1 ,car)"),
        "Error: invalid argument: #[car] is not a expression"
    );
    assert_eq!(run("`(1 ,(car 2))"), "Error: invalid argument: 2 is not a pair");
    assert_eq!(
        run("`(1 (unquote))"),
        "Error: invalid argument: unquote expects 1 arguments, but got 0 arguments"
    );
}

#[test]
fn pairs_and_lists() {
    assert_eq!(run("(cons 1 2)"), "(1 . 2)");
    assert_eq!(run("(cons 1 '(2 3))"), "(1 2 3)");
    assert_eq!(run("(car (cons 1 2))"), "1");
    assert_eq!(run("(cdr (cons 1 2))"), "2");
    assert_eq!(run("(list)"), "()");
    assert_eq!(run("(list 1 'a \"s\")"), "(1 a \"s\")");
    assert_eq!(run("(length '(1 2 3))"), "3");
    assert_eq!(run("(length '())"), "0");
    assert_eq!(run("(null? '())"), "#t");
    assert_eq!(run("(null? '(1))"), "#f");
    assert_eq!(run("(pair? '(1))"), "#t");
    assert_eq!(run("(pair? '())"), "#f");
    assert_eq!(run("(pair? 1)"), "#f");
    assert_eq!(
        run("(cons 1 car)"),
        "Error: invalid argument: #[car] is not a expression"
    );
}

#[test]
fn predicates_on_the_kind_of_a_value() {
    assert_eq!(run("(not #f)"), "#t");
    assert_eq!(run("(not 0)"), "#f");
    assert_eq!(run("(number? 1)"), "#t");
    assert_eq!(run("(number? 1.5)"), "#t");
    assert_eq!(run("(number? 'a)"), "#f");
    assert_eq!(run("(symbol? 'a)"), "#t");
    assert_eq!(run("(symbol? \"a\")"), "#f");
    assert_eq!(run("(string? \"a\")"), "#t");
    assert_eq!(run("(boolean? #f)"), "#t");
    assert_eq!(run("(boolean? 0)"), "#f");
    assert_eq!(run("(procedure? car)"), "#t");
    assert_eq!(run("(procedure? (lambda (x) x))"), "#t");
    assert_eq!(run("(procedure? 'car)"), "#f");
    assert_eq!(run("(vector? #(1))"), "#t");
    assert_eq!(run("(vector? '(1))"), "#f");
}

#[test]
fn frames_of_the_store() {
    let mut frame = Frame::new();
    assert!(frame.lookup("x").is_none());
    frame.define("x", Value::from_number(Number::Integer(1)));
    assert_eq!(frame.lookup("x"), Some(&Value::from_number(Number::Integer(1))));
    let parent = frame.make_child();
    assert_eq!(parent, 0);
    assert_eq!(frame.current(), 1);
    assert_eq!(frame.lookup("x"), Some(&Value::from_number(Number::Integer(1))));
    frame.define("x", Value::from_number(Number::Integer(2)));
    assert_eq!(frame.lookup("x"), Some(&Value::from_number(Number::Integer(2))));
    assert_eq!(frame.lookup_from(0, "x"), Some(&Value::from_number(Number::Integer(1))));
    assert!(frame.lookup("y").is_none());
    frame.define_in(parent, "y", Value::from_number(Number::Integer(7)));
    assert_eq!(frame.lookup("y"), Some(&Value::from_number(Number::Integer(7))));
    frame.define_in(parent, "x", Value::from_number(Number::Integer(3)));
    assert_eq!(frame.lookup("x"), Some(&Value::from_number(Number::Integer(2))));
    assert_eq!(frame.lookup_from(parent, "x"), Some(&Value::from_number(Number::Integer(3))));
    let mut other = Frame::new_with_parent(frame);
    assert_eq!(other.current(), 2);
    assert_eq!(other.home_of(2, "x"), Some(1));
    assert_eq!(other.home_of(2, "y"), Some(0));
    assert_eq!(other.home_of(2, "z"), None);
    other.define_in(0, "z", Value::from_number(Number::Integer(9)));
    assert_eq!(other.lookup("z"), Some(&Value::from_number(Number::Integer(9))));
    assert_eq!(other.size(), 3);
}

#[test]
fn the_global_frame_has_the_roster() {
    let frame = create_global_frame();
    for name in [
        "+", "-", "*", "/", "=", "<", "<=", ">", ">=", "pair?", "car", "cdr", "cons", "null?",
        "list", "length", "not", "number?", "symbol?", "string?", "boolean?", "procedure?",
        "vector?",
    ] {
        let value = frame.lookup(name).unwrap();
        assert_eq!(value.to_string(&Ieee), format!("#[{}]", name));
    }
    assert!(frame.lookup("if").is_none());
}

#[test]
fn a_call_in_tail_position_is_handed_back() {
    let mut frame = create_global_frame();
    let expression = parse(&mut tokenize("(+ 1 2)").unwrap(), &Ieee).unwrap();
    let pending = eval(expression.clone(), &mut frame, true, &Ieee).unwrap();
    assert_eq!(
        pending,
        Value::Thunk(Thunk { content: expression.content, frame: 0 })
    );
    assert_eq!(pending.to_string(&Ieee), "#[thunk]");
}

#[test]
fn the_first_expression_of_a_line_is_evaluated() {
    assert_eq!(run("1 2 3"), "1");
    assert_eq!(run(""), "Error: unexpected end of file");
    assert_eq!(run("(+ 1"), "Error: missing closing parenthesis");
    assert_eq!(run(")"), "Error: missing opening parenthesis");
    assert_eq!(run("(1 . 2 3)"), "Error: only one object is allowed after a dot");
    assert_eq!(run("[1]"), "Error: invalid character: [");
    assert_eq!(run("(+ 1 2x)"), "Error: invalid number literal: 2x)");
    assert_eq!(run("(+ 1 2x 3)"), "Error: invalid number literal: 2x 3");
    assert_eq!(run("(+ 1 2xy 3)"), "Error: invalid number literal: 2xy");
    assert_eq!(run("\"abc"), "Error: string missing closing quote");
}
