use rust_scheme::frame::Frame;
use rust_scheme::reals::{Real, RealFunction, RealOp, RealUnit};
use rust_scheme::{create_global_frame, interpret};

struct Ieee;

impl RealUnit for Ieee {
    fn arithmetic(&self, op: RealOp, a: Real, b: Real) -> Real {
        let (x, y) = (f64::from_bits(a.bits), f64::from_bits(b.bits));
        let z = match op {
            RealOp::Add => x + y,
            RealOp::Sub => x - y,
            RealOp::Mul => x * y,
            RealOp::Div => x / y,
            RealOp::Rem => x % y,
            RealOp::Pow => x.powf(y),
        };
        Real { bits: z.to_bits() }
    }

    fn function(&self, function: RealFunction, x: Real) -> Real {
        let x = f64::from_bits(x.bits);
        let z = match function {
            RealFunction::Cos => x.cos(),
            RealFunction::Sin => x.sin(),
            RealFunction::Radians => x.to_radians(),
        };
        Real { bits: z.to_bits() }
    }

    fn decode(&self, text: &str) -> Option<Real> {
        text.parse::<f64>().ok().map(|x| Real { bits: x.to_bits() })
    }

    fn print(&self, x: Real) -> String {
        let value = f64::from_bits(x.bits);
        let text = format!("{}", value);
        if value.is_finite() && !text.contains('.') {
            format!("{}.0", text)
        } else {
            text
        }
    }
}

fn line(frame: &mut Frame, source: &str) -> String {
    match interpret(source, frame, &Ieee) {
        Ok(value) => value.to_string(&Ieee),
        Err(error) => format!("Error: {}", error.to_string()),
    }
}

fn run(source: &str) -> String {
    line(&mut create_global_frame(), source)
}

#[test]
fn every_name_of_the_roster_is_bound() {
    let frame = create_global_frame();
    for name in [
        "+", "-", "*", "/", "=", "<", "<=", ">", ">=", "abs", "min", "max", "quotient",
        "remainder", "modulo", "expt", "cons", "car", "cdr", "null?", "pair?", "list", "length",
        "append", "reverse", "list-ref", "list-tail", "map", "for-each", "number?", "integer?",
        "real?", "complex?", "symbol?", "string?", "boolean?", "procedure?", "vector?", "eq?",
        "eqv?", "equal?", "string-length", "string-ref", "substring", "string-append",
        "string->symbol", "symbol->string", "make-vector", "vector", "vector-length",
        "vector-ref", "vector->list", "list->vector", "not", "display", "newline", "force",
    ] {
        let value = frame.lookup(name).unwrap();
        assert_eq!(value.to_string(&Ieee), format!("#[{}]", name));
        assert!(value.as_procedure().is_some());
    }
}

#[test]
fn abs_min_max() {
    assert_eq!(run("(abs -5)"), "5");
    assert_eq!(run("(abs 5)"), "5");
    assert_eq!(run("(abs -2.5)"), "2.5");
    assert_eq!(run("(abs -2147483648)"), "2147483647");
    assert_eq!(run("(abs 1+i)"), "Error: invalid argument: 1.0+i is not a real");
    assert_eq!(run("(min 3 1 2)"), "1");
    assert_eq!(run("(max 3 1 2)"), "3");
    assert_eq!(run("(max 1 2.5)"), "2.5");
    assert_eq!(run("(min 1 2.5)"), "1");
    assert_eq!(run("(max 7)"), "7");
    assert_eq!(
        run("(min)"),
        "Error: invalid argument: #[min] expects at least 1 arguments, but got 0 arguments"
    );
    assert_eq!(run("(max 1 'a)"), "Error: invalid argument: a is not a number");
}

#[test]
fn divisions_of_integers() {
    assert_eq!(run("(quotient 7 2)"), "3");
    assert_eq!(run("(quotient -7 2)"), "-3");
    assert_eq!(run("(remainder 7 2)"), "1");
    assert_eq!(run("(remainder -7 2)"), "-1");
    assert_eq!(run("(remainder 7 -2)"), "1");
    assert_eq!(run("(modulo 7 2)"), "1");
    assert_eq!(run("(modulo -7 2)"), "1");
    assert_eq!(run("(modulo 7 -2)"), "-1");
    assert_eq!(run("(modulo -7 -2)"), "-1");
    assert_eq!(run("(modulo 6 3)"), "0");
    assert_eq!(run("(remainder -2147483648 -1)"), "0");
    assert_eq!(run("(quotient -2147483648 -1)"), "2147483647");
    assert_eq!(run("(quotient 1 0)"), "Error: invalid argument: division by zero");
    assert_eq!(run("(modulo 1 0)"), "Error: invalid argument: division by zero");
    assert_eq!(run("(remainder 1.5 2)"), "Error: invalid argument: 1.5 is not a integer");
}

#[test]
fn powers() {
    assert_eq!(run("(expt 2 10)"), "1024");
    assert_eq!(run("(expt 2 0)"), "1");
    assert_eq!(run("(expt -3 3)"), "-27");
    assert_eq!(run("(expt 2 30)"), "1073741824");
    assert_eq!(run("(expt 2 31)"), "2147483647");
    assert_eq!(run("(expt 2 32)"), "2147483647");
    assert_eq!(run("(expt -2 31)"), "-2147483648");
    assert_eq!(run("(expt -2 33)"), "-2147483648");
    assert_eq!(run("(expt -2 34)"), "2147483647");
    assert_eq!(run("(expt -1 1001)"), "-1");
    assert_eq!(run("(expt 2 -1)"), "0.5");
    assert_eq!(run("(expt 2.0 3)"), "8.0");
    assert_eq!(run("(expt 4 0.5)"), "2.0");
}

#[test]
fn kinds_of_number() {
    assert_eq!(run("(integer? 1)"), "#t");
    assert_eq!(run("(integer? 1.5)"), "#f");
    assert_eq!(run("(real? 1)"), "#t");
    assert_eq!(run("(real? 1.5)"), "#t");
    assert_eq!(run("(real? 1+i)"), "#f");
    assert_eq!(run("(complex? 1+i)"), "#t");
    assert_eq!(run("(complex? 1)"), "#t");
    assert_eq!(run("(complex? 'a)"), "#f");
}

#[test]
fn lists() {
    assert_eq!(run("(append)"), "()");
    assert_eq!(run("(append '(1 2) '(3) '() '(4 5))"), "(1 2 3 4 5)");
    assert_eq!(run("(append '(1) 2)"), "(1 . 2)");
    assert_eq!(run("(append '(1 . 2) '(3))"), "Error: invalid argument: (1 . 2) is not a list");
    assert_eq!(run("(reverse '(1 2 3))"), "(3 2 1)");
    assert_eq!(run("(reverse '())"), "()");
    assert_eq!(run("(reverse 5)"), "Error: invalid argument: 5 is not a list");
    assert_eq!(run("(list-ref '(a b c) 0)"), "a");
    assert_eq!(run("(list-ref '(a b c) 2)"), "c");
    assert_eq!(run("(list-ref '(a b c) 3)"), "Error: invalid argument: 3 is not a index");
    assert_eq!(run("(list-ref '(a b c) -1)"), "Error: invalid argument: -1 is not a index");
    assert_eq!(run("(list-tail '(a b c) 1)"), "(b c)");
    assert_eq!(run("(list-tail '(a b c) 3)"), "()");
    assert_eq!(run("(list-tail '(a b c) 4)"), "Error: invalid argument: 4 is not a index");
}

#[test]
fn equality_of_values() {
    assert_eq!(run("(eq? 'a 'a)"), "#t");
    assert_eq!(run("(eq? 'a 'b)"), "#f");
    assert_eq!(run("(eqv? 1 1)"), "#t");
    assert_eq!(run("(eqv? 1 1.0)"), "#f");
    assert_eq!(run("(eqv? \"a\" \"a\")"), "#t");
    assert_eq!(run("(equal? '(1 (2 #(3))) '(1 (2 #(3))))"), "#t");
    assert_eq!(run("(equal? '(1 (2 #(3))) '(1 (2 #(4))))"), "#f");
    assert_eq!(run("(equal? '(1 2) '(1 2 3))"), "#f");
    assert_eq!(run("(equal? car car)"), "#t");
    assert_eq!(run("(equal? car cdr)"), "#f");
    assert_eq!(run("(eq? '() '())"), "#t");
    assert_eq!(run("(equal? #(1 2) #(1))"), "#f");
}

#[test]
fn strings() {
    assert_eq!(run("(string-length \"hello\")"), "5");
    assert_eq!(run("(string-length \"\")"), "0");
    assert_eq!(run("(string-length 'a)"), "Error: invalid argument: a is not a string");
    assert_eq!(run("(string-ref \"hello\" 1)"), "\"e\"");
    assert_eq!(run("(string-ref \"hello\" 5)"), "Error: invalid argument: 5 is not a index");
    assert_eq!(run("(substring \"hello\" 1 3)"), "\"el\"");
    assert_eq!(run("(substring \"hello\" 0 5)"), "\"hello\"");
    assert_eq!(run("(substring \"hello\" 2 2)"), "\"\"");
    assert_eq!(run("(substring \"hello\" 3 2)"), "Error: invalid argument: 2 is not a index");
    assert_eq!(run("(substring \"hello\" 0 6)"), "Error: invalid argument: 6 is not a index");
    assert_eq!(run("(string-append)"), "\"\"");
    assert_eq!(run("(string-append \"ab\" \"\" \"cd\")"), "\"abcd\"");
    assert_eq!(run("(string-append \"ab\" 1)"), "Error: invalid argument: 1 is not a string");
    assert_eq!(run("(string->symbol \"abc\")"), "abc");
    assert_eq!(run("(symbol->string 'abc)"), "\"abc\"");
    assert_eq!(run("(symbol? (string->symbol \"x\"))"), "#t");
}

#[test]
fn vectors() {
    assert_eq!(run("(make-vector 3)"), "#(0 0 0)");
    assert_eq!(run("(make-vector 2 'x)"), "#(x x)");
    assert_eq!(run("(make-vector 0)"), "#()");
    assert_eq!(run("(make-vector -1)"), "Error: invalid argument: -1 is not a index");
    assert_eq!(run("(vector 1 'a \"s\")"), "#(1 a \"s\")");
    assert_eq!(run("(vector)"), "#()");
    assert_eq!(run("(vector-length #(1 2 3))"), "3");
    assert_eq!(run("(vector-ref #(1 2 3) 2)"), "3");
    assert_eq!(run("(vector-ref #(1 2 3) 3)"), "Error: invalid argument: 3 is not a index");
    assert_eq!(run("(vector-ref '(1 2) 0)"), "Error: invalid argument: (1 2) is not a vector");
    assert_eq!(run("(vector->list #(1 2 3))"), "(1 2 3)");
    assert_eq!(run("(list->vector '(1 2 3))"), "#(1 2 3)");
    assert_eq!(run("(list->vector '(1 . 2))"), "Error: invalid argument: (1 . 2) is not a list");
}

#[test]
fn map_and_for_each() {
    assert_eq!(run("(map (lambda (x) (* x x)) '(1 2 3))"), "(1 4 9)");
    assert_eq!(run("(map car '((1 2) (3 4)))"), "(1 3)");
    assert_eq!(run("(map (lambda (x) x) '())"), "()");
    assert_eq!(run("(map 1 '(1))"), "Error: 1 is not a procedure");
    assert_eq!(run("(map car 5)"), "()");
    assert_eq!(run("(map car car)"), "Error: invalid argument: #[car] is not a list");
    assert_eq!(
        run("(map (lambda (x) car) '(1))"),
        "Error: invalid argument: #[car] is not a expression"
    );
    let mut frame = create_global_frame();
    line(&mut frame, "(define total 0)");
    assert_eq!(
        line(&mut frame, "(for-each (lambda (x) (set! total (+ total x))) '(1 2 3))"),
        ""
    );
    assert_eq!(line(&mut frame, "total"), "6");
    line(&mut frame, "(define (twice x) (if (= x 0) 0 (+ 2 (twice (- x 1)))))");
    assert_eq!(line(&mut frame, "(map twice '(0 1 2))"), "(0 2 4)");
    line(&mut frame, "(define (count n) (if (= n 0) 'done (count (- n 1))))");
    assert_eq!(line(&mut frame, "(map count '(10 2000))"), "(done done)");
}

#[test]
fn delay_and_force() {
    let mut frame = create_global_frame();
    line(&mut frame, "(define x 1)");
    line(&mut frame, "(define p (delay (+ x 1)))");
    assert_eq!(line(&mut frame, "p"), "#[promise]");
    assert_eq!(line(&mut frame, "(force p)"), "2");
    line(&mut frame, "(define x 10)");
    assert_eq!(line(&mut frame, "(force p)"), "11");
    line(&mut frame, "(define (later y) (delay (* y 2)))");
    assert_eq!(line(&mut frame, "(force (later 21))"), "42");
    assert_eq!(line(&mut frame, "(force 5)"), "Error: invalid argument: 5 is not a promise");
}

#[test]
fn what_is_written_waits_to_be_taken() {
    let mut frame = create_global_frame();
    assert_eq!(line(&mut frame, "(display \"a b\")"), "");
    assert_eq!(line(&mut frame, "(display '(1 \"x\" y))"), "");
    assert_eq!(line(&mut frame, "(newline)"), "");
    assert_eq!(line(&mut frame, "(display 2.5)"), "");
    assert_eq!(frame.take_output(), "a b(1 \"x\" y)\n2.5");
    assert_eq!(frame.take_output(), "");
    assert_eq!(
        line(&mut frame, "(display)"),
        "Error: invalid argument: #[display] expects 1 arguments, but got 0 arguments"
    );
    assert_eq!(
        line(&mut frame, "(newline 1)"),
        "Error: invalid argument: #[newline] expects 0 arguments, but got 1 arguments"
    );
}
