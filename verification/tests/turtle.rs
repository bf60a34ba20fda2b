use rust_scheme::canvas::{Canvas, Move, Path};
use rust_scheme::frame::Frame;
use rust_scheme::reals::{Real, RealFunction, RealOp, RealUnit};
use rust_scheme::{create_global_frame, create_graphic_frame, interpret};

struct Ieee;

impl RealUnit for Ieee {
    fn arithmetic(&self, op: RealOp, a: Real, b: Real) -> Real {
        let (x, y) = (f64::from_bits(a.bits), f64::from_bits(b.bits));
        let z = match op {
            RealOp::Add => x + y,
            RealOp::Sub => x - y,
            RealOp::Mul => x * y,
            RealOp::Div => x / y,
            RealOp::Rem => x % y,
            RealOp::Pow => x.powf(y),
        };
        Real { bits: z.to_bits() }
    }

    fn function(&self, function: RealFunction, x: Real) -> Real {
        let x = f64::from_bits(x.bits);
        let z = match function {
            RealFunction::Cos => x.cos(),
            RealFunction::Sin => x.sin(),
            RealFunction::Radians => x.to_radians(),
        };
        Real { bits: z.to_bits() }
    }

    fn decode(&self, text: &str) -> Option<Real> {
        text.parse::<f64>().ok().map(|x| Real { bits: x.to_bits() })
    }

    fn print(&self, x: Real) -> String {
        let value = f64::from_bits(x.bits);
        let text = format!("{}", value);
        if value.is_finite() && !text.contains('.') {
            format!("{}.0", text)
        } else {
            text
        }
    }
}

fn of(x: f64) -> Real {
    Real { bits: x.to_bits() }
}

fn line(frame: &mut Frame, source: &str) -> String {
    match interpret(source, frame, &Ieee) {
        Ok(value) => value.to_string(&Ieee),
        Err(error) => format!("Error: {}", error.to_string()),
    }
}

fn close(a: Real, b: f64) -> bool {
    (f64::from_bits(a.bits) - b).abs() < 1e-9
}

#[test]
fn a_session_starts_with_one_path_at_the_origin() {
    let canvas = Canvas::default();
    assert_eq!(canvas.content.x, of(0.0));
    assert_eq!(canvas.content.y, of(0.0));
    assert_eq!(canvas.content.angle, of(-90.0));
    assert_eq!(canvas.content.bg_color, "white");
    assert_eq!(canvas.content.size, of(1.0));
    assert!(canvas.content.pen_down);
    assert!(canvas.is_visible());
    assert_eq!(canvas.content.fill_path, None);
    assert_eq!(
        canvas.content.paths,
        vec![Path {
            stroke: "black".to_string(),
            fill: "transparent".to_string(),
            moves: vec![Move::AbsoluteMove(of(0.0), of(0.0))]
        }]
    );
}

#[test]
fn the_turtle_draws_where_the_pen_is_down() {
    let mut canvas = Canvas::default();
    canvas.mov(of(3.0), of(4.0));
    canvas.penup();
    canvas.mov(of(5.0), of(6.0));
    canvas.pendown();
    canvas.mov(of(7.0), of(8.0));
    assert_eq!(
        canvas.content.paths[0].moves,
        vec![
            Move::AbsoluteMove(of(0.0), of(0.0)),
            Move::AbsoluteLine(of(3.0), of(4.0)),
            Move::AbsoluteMove(of(5.0), of(6.0)),
            Move::AbsoluteLine(of(7.0), of(8.0)),
        ]
    );
    assert_eq!(canvas.content.x, of(7.0));
    assert_eq!(canvas.content.y, of(8.0));
    assert_eq!(canvas.content.paths[0].d(&Ieee), "M 0.0 0.0 L 3.0 4.0 M 5.0 6.0 L 7.0 8.0");
}

#[test]
fn forward_goes_along_the_heading() {
    let mut canvas = Canvas::default();
    canvas.forward(of(10.0), &Ieee);
    assert!(close(canvas.content.x, 0.0));
    assert!(close(canvas.content.y, -10.0));
    canvas.rotate(of(90.0), &Ieee);
    assert_eq!(canvas.content.angle, of(-180.0));
    canvas.forward(of(5.0), &Ieee);
    assert!(close(canvas.content.x, -5.0));
    assert!(close(canvas.content.y, -10.0));
    canvas.abs_rotate(of(0.0), &Ieee);
    canvas.forward(of(5.0), &Ieee);
    assert!(close(canvas.content.x, 0.0));
    canvas.rotate(of(-450.0), &Ieee);
    assert_eq!(canvas.content.angle, of(90.0));
}

#[test]
fn a_colour_begins_a_path() {
    let mut canvas = Canvas::default();
    canvas.mov(of(1.0), of(1.0));
    canvas.set_color("red");
    assert_eq!(canvas.content.paths.len(), 2);
    assert_eq!(canvas.content.paths[1].stroke, "red");
    assert_eq!(
        canvas.content.paths[1].moves,
        vec![Move::AbsoluteMove(of(1.0), of(1.0))]
    );
    canvas.set_bg("blue");
    assert_eq!(canvas.content.bg_color, "blue");
}

#[test]
fn a_filled_path_goes_under_the_last_path() {
    let mut canvas = Canvas::default();
    canvas.set_color("red");
    canvas.begin_fill();
    canvas.mov(of(1.0), of(0.0));
    canvas.mov(of(1.0), of(1.0));
    canvas.end_fill();
    assert_eq!(canvas.content.fill_path, None);
    assert_eq!(canvas.content.paths.len(), 3);
    assert_eq!(
        canvas.content.paths[1],
        Path {
            stroke: "black".to_string(),
            fill: "red".to_string(),
            moves: vec![
                Move::AbsoluteLine(of(1.0), of(0.0)),
                Move::AbsoluteLine(of(1.0), of(1.0))
            ]
        }
    );
    canvas.end_fill();
    assert_eq!(canvas.content.paths.len(), 3);
    canvas.reset();
    assert_eq!(canvas, Canvas::default());
}

#[test]
fn commands_as_path_data() {
    assert_eq!(Move::AbsoluteMove(of(1.0), of(2.5)).to_string(&Ieee), "M 1.0 2.5");
    assert_eq!(Move::RelativeMove(of(1.0), of(-2.0)).to_string(&Ieee), "m 1.0 -2.0");
    assert_eq!(Move::AbsoluteLine(of(0.0), of(0.5)).to_string(&Ieee), "L 0.0 0.5");
    assert_eq!(Move::RelativeLine(of(3.0), of(4.0)).to_string(&Ieee), "l 3.0 4.0");
    assert_eq!(Move::CompletePath.to_string(&Ieee), "Z");
    assert_eq!(
        Move::AbsoluteArc(of(1.0), of(2.0), -30, true, false, of(3.0), of(4.0)).to_string(&Ieee),
        "A 1.0 2.0 -30 1 0 3.0 4.0"
    );
    assert_eq!(
        Move::RelativeArc(of(1.0), of(2.0), 45, false, true, of(3.0), of(4.0)).to_string(&Ieee),
        "a 1.0 2.0 45 0 1 3.0 4.0"
    );
    assert_eq!(Path::default().d(&Ieee), "");
}

#[test]
fn programs_move_the_turtle() {
    let mut frame = create_graphic_frame();
    assert_eq!(line(&mut frame, "(forward 10)"), "");
    assert_eq!(line(&mut frame, "(heading)"), "90.0");
    assert_eq!(line(&mut frame, "(right 90)"), "");
    assert_eq!(line(&mut frame, "(heading)"), "0.0");
    assert_eq!(line(&mut frame, "(setposition 3 4)"), "");
    assert_eq!(line(&mut frame, "(position)"), "(3.0 4.0)");
    assert_eq!(line(&mut frame, "(pos)"), "(3.0 4.0)");
    assert_eq!(line(&mut frame, "(fd 2)"), "");
    assert_eq!(line(&mut frame, "(position)"), "(5.0 4.0)");
    assert_eq!(line(&mut frame, "(bk 1.5)"), "");
    assert_eq!(line(&mut frame, "(position)"), "(3.5 4.0)");
    assert_eq!(line(&mut frame, "(seth 180)"), "");
    assert_eq!(line(&mut frame, "(heading)"), "180.0");
    assert_eq!(line(&mut frame, "(lt 90)"), "");
    assert_eq!(line(&mut frame, "(heading)"), "270.0");
    assert_eq!(frame.canvas().content.x, of(3.5));
    assert_eq!(frame.canvas().content.y, of(-4.0));
    assert_eq!(line(&mut frame, "(visible?)"), "#t");
    assert_eq!(line(&mut frame, "(ht)"), "");
    assert_eq!(line(&mut frame, "(visible?)"), "#f");
    assert_eq!(line(&mut frame, "(showturtle)"), "");
    assert_eq!(line(&mut frame, "(visible?)"), "#t");
    assert_eq!(line(&mut frame, "(penup)"), "");
    assert!(!frame.canvas().content.pen_down);
    assert_eq!(line(&mut frame, "(pd)"), "");
    assert!(frame.canvas().content.pen_down);
    assert_eq!(line(&mut frame, "(begin-fill)"), "");
    assert!(frame.canvas().content.fill_path.is_some());
    assert_eq!(line(&mut frame, "(end-fill)"), "");
    assert!(frame.canvas().content.fill_path.is_none());
    assert_eq!(line(&mut frame, "(reset)"), "");
    assert_eq!(*frame.canvas(), Canvas::default());
    assert_eq!(line(&mut frame, "forward"), "#[forward]");
    assert_eq!(line(&mut frame, "fd"), "#[forward]");
    assert_eq!(line(&mut frame, "goto"), "#[setposition]");
    assert_eq!(line(&mut frame, "(procedure? back)"), "#t");
}

#[test]
fn a_procedure_may_draw() {
    let mut frame = create_graphic_frame();
    line(
        &mut frame,
        "(define (square n) (if (= n 0) 'done (begin (forward 10) (right 90) (square (- n 1)))))",
    );
    assert_eq!(line(&mut frame, "(square 4)"), "done");
    assert_eq!(frame.canvas().content.paths[0].moves.len(), 5);
    assert!(close(frame.canvas().content.x, 0.0));
    assert!(close(frame.canvas().content.y, 0.0));
}

#[test]
fn faults_of_the_turtle() {
    let mut frame = create_graphic_frame();
    assert_eq!(
        line(&mut frame, "(forward)"),
        "Error: invalid argument: forward expects 1 arguments, but got 0 arguments"
    );
    assert_eq!(
        line(&mut frame, "(forward 'a)"),
        "Error: invalid argument: a is not a number"
    );
    assert_eq!(
        line(&mut frame, "(forward 1+2i)"),
        "Error: invalid argument: 1.0+2.0i is not a real"
    );
    assert_eq!(
        line(&mut frame, "(setposition 1)"),
        "Error: invalid argument: setposition expects 2 arguments, but got 1 arguments"
    );
    assert_eq!(
        line(&mut frame, "(position 1)"),
        "Error: invalid argument: position expects 0 arguments, but got 1 arguments"
    );
    assert_eq!(*frame.canvas(), Canvas::default());
    let mut plain = create_global_frame();
    assert_eq!(line(&mut plain, "(forward 1)"), "Error: unknown identifier: forward");
}

#[test]
fn canvas_test_mem_size() {
    println!("Size of Move: {}", std::mem::size_of::<Move>());
}
